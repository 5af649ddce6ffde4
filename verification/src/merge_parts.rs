//! What a merge computes from the rows that it reads.

use crate::json::{
    array, json_i64, json_same, json_str, number_of, obj_get, obj_put, same_json, values_view, Json,
    JsonV, ObjV, Object,
};
use crate::match_algo::{records_view, MatchRecord, RecordV};
use crate::store::dct_accessor::has_text;
use crate::survivorship::{
    log_row, log_view, rules_view, survival_log, survive, LogV, SurvivorLogEntry, SurvivorRule,
};
use crate::text::{dec_int, decimal_int, same_text, texts};
use vstd::prelude::*;

verus! {

/// A detail table of a dictionary.
#[derive(Debug)]
pub struct LineTableInfo {
    pub table: String,
    /// The column that points at the head row.
    pub parent_field: String,
    /// The columns that tell a detail row from another; none where rows are never duplicates.
    pub dedup_keys: Vec<String>,
}

/// What a merge did.
#[derive(Debug, Clone, Copy, PartialEq, Eq, Structural)]
pub struct MergeStats {
    pub master_id: i64,
    /// Detail rows that moved to the master.
    pub reparented_total: u64,
    /// Detail rows that were retired as duplicates.
    pub deduped_total: u64,
}

/// The first key of the overrides that is not among the surviving fields.
pub open spec fn stray_override(overrides: ObjV, fields: Seq<Seq<char>>) -> Option<Seq<char>>
    decreases overrides.len(),
{
    if overrides.len() == 0 {
        None
    } else if !fields.contains(overrides[0].0) {
        Some(overrides[0].0)
    } else {
        stray_override(overrides.drop_first(), fields)
    }
}

/// Refuses overrides of fields that do not survive.
pub fn check_overrides(overrides: &Object, survive_fields: &Vec<String>) -> (r: Result<(), String>)
    ensures
        match stray_override(overrides@, texts(survive_fields@)) {
            None => r is Ok,
            Some(k) => r matches Err(e) && e@ == "overrides 字段 "@ + k + " 不在存活字段清单"@,
        },
{
    let ghost fields = texts(survive_fields@);
    let n: usize = overrides.len();
    let mut i: usize = 0;
    assert(overrides@.skip(0) =~= overrides@);
    while i < n
        invariant
            i <= n,
            n == overrides@.len(),
            fields == texts(survive_fields@),
            stray_override(overrides@, fields) == stray_override(
                overrides@.skip(i as int),
                fields,
            ),
        decreases n - i,
    {
        assert(overrides@.skip(i as int)[0] == overrides@[i as int]);
        assert(overrides@.skip(i as int).drop_first() =~= overrides@.skip(i + 1));
        let k = overrides.key_at(i);
        if !has_text(survive_fields, k.as_str()) {
            let mut e: String = "overrides 字段 ".to_owned();
            e.append(k.as_str());
            e.append(" 不在存活字段清单");
            return Err(e);
        }
        i += 1;
    }
    Ok(())
}

/// The state of a record, empty where it has none.
pub open spec fn lifecycle(o: ObjV) -> Seq<char> {
    match json_str(obj_get(o, "lifecycle_status"@)) {
        Some(s) => s,
        None => Seq::empty(),
    }
}

/// Whether a record is published.
pub open spec fn is_published(r: RecordV) -> bool {
    lifecycle(r.fields) == "published"@
}

/// The state of a record.
pub fn lifecycle_of(r: &MatchRecord) -> (s: String)
    ensures
        s@ == lifecycle(r.fields@),
{
    match r.fields.get("lifecycle_status") {
        Some(Json::Str(s)) => s.clone(),
        _ => String::new(),
    }
}

/// The first record of an id.
pub open spec fn first_with_id(rs: Seq<RecordV>, id: i64) -> Option<RecordV>
    decreases rs.len(),
{
    if rs.len() == 0 {
        None
    } else if rs[0].id == id {
        Some(rs[0])
    } else {
        first_with_id(rs.drop_first(), id)
    }
}

/// The records whose id is among `ids`, in their order.
pub open spec fn with_ids(rs: Seq<RecordV>, ids: Seq<i64>) -> Seq<RecordV>
    decreases rs.len(),
{
    if rs.len() == 0 {
        rs
    } else {
        let w = with_ids(rs.drop_last(), ids);
        if ids.contains(rs.last().id) {
            w.push(rs.last())
        } else {
            w
        }
    }
}

/// The first record that is not published.
pub open spec fn first_unpublished(rs: Seq<RecordV>) -> Option<RecordV>
    decreases rs.len(),
{
    if rs.len() == 0 {
        None
    } else if !is_published(rs[0]) {
        Some(rs[0])
    } else {
        first_unpublished(rs.drop_first())
    }
}

/// The parties of a merge, or what is wrong with them: all of them must have been read and be
/// published.
pub open spec fn parties(rs: Seq<RecordV>, master_id: i64, victim_ids: Seq<i64>) -> Result<
    (RecordV, Seq<RecordV>),
    Seq<char>,
> {
    match first_with_id(rs, master_id) {
        None => Err("master "@ + dec_int(master_id as int) + " 读取失败"@),
        Some(m) => if !is_published(m) {
            Err("master "@ + dec_int(master_id as int) + " 非 published"@)
        } else {
            let vs = with_ids(rs, victim_ids);
            if vs.len() != victim_ids.len() {
                Err("部分 victim 读取失败"@)
            } else {
                match first_unpublished(vs) {
                    Some(v) => Err(
                        "victim "@ + dec_int(v.id as int)
                            + " 非 published（可能已被合并）"@,
                    ),
                    None => Ok((m, vs)),
                }
            }
        },
    }
}

/// Whether a list of ids holds `id`.
pub fn has_number(ids: &Vec<i64>, id: i64) -> (r: bool)
    ensures
        r == ids@.contains(id),
{
    let mut i: usize = 0;
    while i < ids.len()
        invariant
            i <= ids@.len(),
            forall|j: int| 0 <= j < i ==> ids@[j] != id,
        decreases ids@.len() - i,
    {
        if ids[i] == id {
            return true;
        }
        i += 1;
    }
    false
}

/// `before`, a number, `after`.
pub fn about_id(before: &str, id: i64, after: &str) -> (r: String)
    ensures
        r@ == before@ + dec_int(id as int) + after@,
{
    let mut s: String = before.to_owned();
    s.append(decimal_int(id).as_str());
    s.append(after);
    s
}

fn find_id(rs: &Vec<MatchRecord>, id: i64) -> (r: Option<usize>)
    ensures
        match r {
            Some(i) => i < rs@.len() && first_with_id(records_view(rs@), id) == Some(
                rs@[i as int]@,
            ),
            None => first_with_id(records_view(rs@), id) is None,
        },
{
    let ghost all = records_view(rs@);
    let mut i: usize = 0;
    assert(all.skip(0) =~= all);
    while i < rs.len()
        invariant
            i <= rs@.len(),
            all == records_view(rs@),
            first_with_id(all, id) == first_with_id(all.skip(i as int), id),
        decreases rs@.len() - i,
    {
        assert(all.skip(i as int)[0] == rs@[i as int]@);
        assert(all.skip(i as int).drop_first() =~= all.skip(i + 1));
        if rs[i].id == id {
            return Some(i);
        }
        i += 1;
    }
    None
}

/// Picks the parties of a merge out of the records that were read.
pub fn select_parties(rs: &Vec<MatchRecord>, master_id: i64, victim_ids: &Vec<i64>) -> (r: Result<
    (MatchRecord, Vec<MatchRecord>),
    String,
>)
    ensures
        match r {
            Ok(p) => parties(records_view(rs@), master_id, victim_ids@) == Ok::<
                (RecordV, Seq<RecordV>),
                Seq<char>,
            >((p.0@, records_view(p.1@))),
            Err(e) => parties(records_view(rs@), master_id, victim_ids@) == Err::<
                (RecordV, Seq<RecordV>),
                Seq<char>,
            >(e@),
        },
{
    let ghost all = records_view(rs@);
    let m: usize = match find_id(rs, master_id) {
        None => {
            return Err(about_id("master ", master_id, " 读取失败"));
        },
        Some(i) => i,
    };
    if !same_text(lifecycle_of(&rs[m]).as_str(), "published") {
        return Err(about_id("master ", master_id, " 非 published"));
    }
    let mut victims: Vec<MatchRecord> = Vec::new();
    let mut i: usize = 0;
    assert(all.take(0) =~= Seq::<RecordV>::empty());
    assert(records_view(victims@) =~= Seq::<RecordV>::empty());
    while i < rs.len()
        invariant
            i <= rs@.len(),
            all == records_view(rs@),
            records_view(victims@) == with_ids(all.take(i as int), victim_ids@),
        decreases rs@.len() - i,
    {
        let ghost before = victims@;
        assert(all.take(i + 1).drop_last() =~= all.take(i as int));
        assert(all.take(i + 1).last() == rs@[i as int]@);
        if has_number(victim_ids, rs[i].id) {
            victims.push(rs[i].clone());
            assert(records_view(victims@) =~= records_view(before).push(rs@[i as int]@));
        }
        i += 1;
    }
    assert(all.take(all.len() as int) =~= all);
    if victims.len() != victim_ids.len() {
        return Err("部分 victim 读取失败".to_owned());
    }
    let ghost vs = records_view(victims@);
    let mut j: usize = 0;
    assert(vs.skip(0) =~= vs);
    while j < victims.len()
        invariant
            j <= victims@.len(),
            m < rs@.len(),
            all == records_view(rs@),
            first_with_id(all, master_id) == Some(rs@[m as int]@),
            is_published(rs@[m as int]@),
            vs == with_ids(all, victim_ids@),
            vs.len() == victim_ids@.len(),
            vs == records_view(victims@),
            first_unpublished(vs) == first_unpublished(vs.skip(j as int)),
        decreases victims@.len() - j,
    {
        assert(vs.skip(j as int)[0] == victims@[j as int]@);
        assert(vs.skip(j as int).drop_first() =~= vs.skip(j + 1));
        if !same_text(lifecycle_of(&victims[j]).as_str(), "published") {
            return Err(
                about_id("victim ", victims[j].id, " 非 published（可能已被合并）"),
            );
        }
        j += 1;
    }
    Ok((rs[m].clone(), victims))
}

/// `row` with the values of `over` in it.
pub open spec fn overlay(row: ObjV, over: ObjV) -> ObjV
    decreases over.len(),
{
    if over.len() == 0 {
        row
    } else {
        obj_put(overlay(row, over.drop_last()), over.last().0, over.last().1)
    }
}

/// Puts the values of `over` into `row`.
fn overlay_row(row: &mut Object, over: &Object)
    ensures
        final(row)@ == overlay(old(row)@, over@),
{
    let ghost start = row@;
    let n: usize = over.len();
    let mut i: usize = 0;
    assert(over@.take(0) =~= ObjV::empty());
    while i < n
        invariant
            i <= n,
            n == over@.len(),
            row@ == overlay(start, over@.take(i as int)),
        decreases n - i,
    {
        assert(over@.take(i + 1).drop_last() =~= over@.take(i as int));
        assert(over@.take(i + 1).last() == over@[i as int]);
        row.insert(over.key_at(i).clone(), over.value_at(i).clone());
        i += 1;
    }
    assert(over@.take(n as int) =~= over@);
}

/// A row and the log of how it came about.
#[verifier::ext_equal]
pub struct MergedV {
    pub row: ObjV,
    pub log: Seq<LogV>,
}

/// The master's row after the victims, one after the other: each survives against what the
/// master has become.
pub open spec fn merged(
    master: ObjV,
    victims: Seq<RecordV>,
    fields: Seq<Seq<char>>,
    rules: Seq<(Seq<char>, SurvivorRule)>,
) -> MergedV
    decreases victims.len(),
{
    if victims.len() == 0 {
        MergedV { row: master, log: Seq::empty() }
    } else {
        let m = merged(master, victims.drop_last(), fields, rules);
        let l = survival_log(m.row, victims.last().fields, fields, rules);
        MergedV { row: overlay(m.row, log_row(l)), log: m.log + l }
    }
}

/// Merges the victims into the master's row.
pub fn merge_rows(
    master: &MatchRecord,
    victims: &Vec<MatchRecord>,
    survive_fields: &Vec<String>,
    rules: &Vec<(String, SurvivorRule)>,
) -> (r: (Object, Vec<SurvivorLogEntry>))
    ensures
        (MergedV { row: r.0@, log: log_view(r.1@) }) == merged(
            master.fields@,
            records_view(victims@),
            texts(survive_fields@),
            rules_view(rules@),
        ),
{
    let ghost vs = records_view(victims@);
    let ghost fs = texts(survive_fields@);
    let ghost rv = rules_view(rules@);
    let mut current = master.clone();
    let mut log: Vec<SurvivorLogEntry> = Vec::new();
    let mut i: usize = 0;
    assert(vs.take(0) =~= Seq::<RecordV>::empty());
    assert(log_view(log@) =~= Seq::<LogV>::empty());
    while i < victims.len()
        invariant
            i <= victims@.len(),
            vs == records_view(victims@),
            fs == texts(survive_fields@),
            rv == rules_view(rules@),
            current.fields@ == merged(master.fields@, vs.take(i as int), fs, rv).row,
            log_view(log@) == merged(master.fields@, vs.take(i as int), fs, rv).log,
        decreases victims@.len() - i,
    {
        let ghost before = log@;
        assert(vs.take(i + 1).drop_last() =~= vs.take(i as int));
        assert(vs.take(i + 1).last() == victims@[i as int]@);
        let (row, entries) = survive(&current, &victims[i], survive_fields, rules);
        overlay_row(&mut current.fields, &row);
        let ghost added = entries@;
        let mut more = entries;
        log.append(&mut more);
        assert(log_view(log@) =~= log_view(before) + log_view(added));
        i += 1;
    }
    assert(vs.take(vs.len() as int) =~= vs);
    (current.fields, log)
}

/// The log with the first entry for `k` replaced, or with a new entry for it.
pub open spec fn log_override(log: Seq<LogV>, k: Seq<char>, v: JsonV) -> Seq<LogV>
    decreases log.len(),
{
    let e = LogV { field: k, from: "override"@, value: v };
    if log.len() == 0 {
        seq![e]
    } else if log[0].field == k {
        seq![e] + log.drop_first()
    } else {
        seq![log[0]] + log_override(log.drop_first(), k, v)
    }
}

/// A merge result with the decisions of a person on top.
pub open spec fn overridden(m: MergedV, overrides: ObjV) -> MergedV
    decreases overrides.len(),
{
    if overrides.len() == 0 {
        m
    } else {
        let p = overridden(m, overrides.drop_last());
        let k = overrides.last().0;
        let v = overrides.last().1;
        MergedV { row: obj_put(p.row, k, v), log: log_override(p.log, k, v) }
    }
}

proof fn lemma_log_override_at(log: Seq<LogV>, k: Seq<char>, v: JsonV, n: int)
    requires
        0 <= n <= log.len(),
        forall|i: int| 0 <= i < n ==> (#[trigger] log[i]).field != k,
        n < log.len() ==> log[n].field == k,
    ensures
        log_override(log, k, v) == (if n < log.len() {
            log.update(n, LogV { field: k, from: "override"@, value: v })
        } else {
            log.push(LogV { field: k, from: "override"@, value: v })
        }),
    decreases n,
{
    let e = LogV { field: k, from: "override"@, value: v };
    if n == 0 {
        if log.len() == 0 {
            assert(log.push(e) =~= seq![e]);
        } else {
            assert(log.update(0, e) =~= seq![e] + log.drop_first());
        }
    } else {
        let d = log.drop_first();
        assert(log[0].field != k);
        assert forall|i: int| 0 <= i < n - 1 implies (#[trigger] d[i]).field != k by {
            assert(d[i] == log[i + 1]);
        }
        if n < log.len() {
            assert(d[n - 1] == log[n]);
            lemma_log_override_at(d, k, v, n - 1);
            assert(log.update(n, e) =~= seq![log[0]] + d.update(n - 1, e));
        } else {
            lemma_log_override_at(d, k, v, n - 1);
            assert(log.push(e) =~= seq![log[0]] + d.push(e));
        }
    }
}

/// Puts the decisions of a person on top of a merge result.
pub fn apply_overrides(row: &mut Object, log: &mut Vec<SurvivorLogEntry>, overrides: &Object)
    ensures
        (MergedV { row: final(row)@, log: log_view(final(log)@) }) == overridden(
            MergedV { row: old(row)@, log: log_view(old(log)@) },
            overrides@,
        ),
{
    let ghost start = MergedV { row: row@, log: log_view(log@) };
    let n: usize = overrides.len();
    let mut i: usize = 0;
    assert(overrides@.take(0) =~= ObjV::empty());
    while i < n
        invariant
            i <= n,
            n == overrides@.len(),
            row@ == overridden(start, overrides@.take(i as int)).row,
            log_view(log@) == overridden(start, overrides@.take(i as int)).log,
        decreases n - i,
    {
        let ghost before = log@;
        proof {
            assert(overrides@.take(i + 1).drop_last() =~= overrides@.take(i as int));
            assert(overrides@.take(i + 1).last() == overrides@[i as int]);
        }
        let k = overrides.key_at(i);
        let v = overrides.value_at(i);
        row.insert(k.clone(), v.clone());
        let mut j: usize = 0;
        while j < log.len() && !same_text(log[j].field.as_str(), k.as_str())
            invariant
                j <= log@.len(),
                log@ == before,
                forall|m: int| 0 <= m < j ==> (#[trigger] log_view(before)[m]).field != k@,
            decreases log@.len() - j,
        {
            j += 1;
        }
        proof {
            lemma_log_override_at(log_view(before), k@, v@, j as int);
        }
        let e = SurvivorLogEntry {
            field: k.clone(),
            from: "override".to_owned(),
            value: v.clone(),
        };
        let ghost ev = e@;
        if j < log.len() {
            log.set(j, e);
            assert(log_view(log@) =~= log_view(before).update(j as int, ev));
        } else {
            log.push(e);
            assert(log_view(log@) =~= log_view(before).push(ev));
        }
        i += 1;
    }
    assert(overrides@.take(n as int) =~= overrides@);
}

/// The columns of the master that a merge writes: the surviving fields that the row has, and the
/// next version.
pub open spec fn merge_update(row: ObjV, fields: Seq<Seq<char>>, version: i64) -> ObjV {
    obj_put(
        surviving(row, fields),
        "published_version"@,
        JsonV::Num(number_of((version + 1) as i64)),
    )
}

/// The surviving fields that the row has.
pub open spec fn surviving(row: ObjV, fields: Seq<Seq<char>>) -> ObjV
    decreases fields.len(),
{
    if fields.len() == 0 {
        Seq::empty()
    } else {
        let u = surviving(row, fields.drop_last());
        match obj_get(row, fields.last()) {
            Some(v) => obj_put(u, fields.last(), v),
            None => u,
        }
    }
}

/// A merge writes at most the surviving fields and the version.
pub proof fn lemma_merge_update_len(row: ObjV, fields: Seq<Seq<char>>, version: i64)
    ensures
        merge_update(row, fields, version).len() <= fields.len() + 1,
{
    lemma_surviving_len(row, fields);
    crate::json::lemma_put_len(
        surviving(row, fields),
        "published_version"@,
        JsonV::Num(number_of((version + 1) as i64)),
    );
}

proof fn lemma_surviving_len(row: ObjV, fields: Seq<Seq<char>>)
    ensures
        surviving(row, fields).len() <= fields.len(),
    decreases fields.len(),
{
    if fields.len() > 0 {
        lemma_surviving_len(row, fields.drop_last());
        if let Some(v) = obj_get(row, fields.last()) {
            crate::json::lemma_put_len(surviving(row, fields.drop_last()), fields.last(), v);
        }
    }
}

/// The columns of the master that a merge writes.
pub fn master_update(row: &Object, survive_fields: &Vec<String>, version: i64) -> (r: Object)
    requires
        version < i64::MAX,
    ensures
        r@ == merge_update(row@, texts(survive_fields@), version),
{
    let ghost fs = texts(survive_fields@);
    let mut u = Object::new();
    let mut i: usize = 0;
    assert(fs.take(0) =~= Seq::<Seq<char>>::empty());
    while i < survive_fields.len()
        invariant
            i <= survive_fields@.len(),
            fs == texts(survive_fields@),
            u@ == surviving(row@, fs.take(i as int)),
        decreases survive_fields@.len() - i,
    {
        assert(fs.take(i + 1).drop_last() =~= fs.take(i as int));
        assert(fs.take(i + 1).last() == survive_fields@[i as int]@);
        if let Some(v) = row.get(survive_fields[i].as_str()) {
            u.insert(survive_fields[i].clone(), v.clone());
        }
        i += 1;
    }
    assert(fs.take(fs.len() as int) =~= fs);
    u.insert("published_version".to_owned(), Json::integer(version + 1));
    u
}

/// The version of a record, 1 where it has none.
pub open spec fn version_of(o: ObjV) -> i64 {
    match json_i64(obj_get(o, "published_version"@)) {
        Some(v) => v,
        None => 1,
    }
}

/// The version of a record.
pub fn record_version(o: &Object) -> (r: i64)
    ensures
        r == version_of(o@),
{
    match o.get("published_version") {
        Some(v) => match v.as_i64() {
            Some(i) => i,
            None => 1,
        },
        None => 1,
    }
}

/// A detail row: its id and the values that tell it from another.
#[derive(Debug)]
pub struct LineKey {
    pub id: i64,
    pub values: Vec<Json>,
}

/// What a detail row stands for.
#[verifier::ext_equal]
pub struct LineKeyV {
    pub id: i64,
    pub values: Seq<JsonV>,
}

impl LineKey {
    pub open spec fn view(&self) -> LineKeyV {
        LineKeyV { id: self.id, values: values_view(self.values@) }
    }
}

/// The views of a list of detail rows.
pub open spec fn lines_view(l: Seq<LineKey>) -> Seq<LineKeyV> {
    Seq::new(l.len(), |i: int| l[i]@)
}

/// Equality of key values, one by one.
pub open spec fn same_key(a: Seq<JsonV>, b: Seq<JsonV>) -> bool {
    a.len() == b.len() && forall|i: int|
        0 <= i < a.len() ==> json_same(#[trigger] a[i], b[i])
}

/// Whether one of the lines has these key values.
pub open spec fn has_key(lines: Seq<LineKeyV>, key: Seq<JsonV>) -> bool {
    exists|i: int| 0 <= i < lines.len() && same_key(key, (#[trigger] lines[i]).values)
}

/// The ids of the victim's lines whose key values one of the master's has (`dup`), or none has.
pub open spec fn lines_with(
    victim: Seq<LineKeyV>,
    master: Seq<LineKeyV>,
    dup: bool,
) -> Seq<i64>
    decreases victim.len(),
{
    if victim.len() == 0 {
        Seq::empty()
    } else {
        let ids = lines_with(victim.drop_last(), master, dup);
        if has_key(master, victim.last().values) == dup {
            ids.push(victim.last().id)
        } else {
            ids
        }
    }
}

fn keys_same(a: &Vec<Json>, b: &Vec<Json>) -> (r: bool)
    ensures
        r == same_key(values_view(a@), values_view(b@)),
{
    if a.len() != b.len() {
        return false;
    }
    let mut i: usize = 0;
    while i < a.len()
        invariant
            i <= a@.len(),
            a@.len() == b@.len(),
            forall|j: int| 0 <= j < i ==> json_same((#[trigger] a@[j])@, b@[j]@),
        decreases a@.len() - i,
    {
        if !same_json(&a[i], &b[i]) {
            assert(!json_same(values_view(a@)[i as int], values_view(b@)[i as int]));
            return false;
        }
        i += 1;
    }
    assert forall|j: int| 0 <= j < values_view(a@).len() implies json_same(
        #[trigger] values_view(a@)[j],
        values_view(b@)[j],
    ) by {
        assert(json_same(a@[j]@, b@[j]@));
    }
    true
}

fn key_present(lines: &Vec<LineKey>, key: &Vec<Json>) -> (r: bool)
    ensures
        r == has_key(lines_view(lines@), values_view(key@)),
{
    let ghost all = lines_view(lines@);
    let mut i: usize = 0;
    while i < lines.len()
        invariant
            i <= lines@.len(),
            all == lines_view(lines@),
            forall|j: int|
                0 <= j < i ==> !same_key(values_view(key@), (#[trigger] all[j]).values),
        decreases lines@.len() - i,
    {
        if keys_same(key, &lines[i].values) {
            assert(same_key(values_view(key@), all[i as int].values));
            return true;
        }
        assert(all[i as int].values == values_view(lines@[i as int].values@));
        i += 1;
    }
    false
}

/// Splits the victim's detail lines: those that move to the master, and those that repeat a line
/// of the master and are retired.
pub fn split_lines(victim: &Vec<LineKey>, master: &Vec<LineKey>) -> (r: (Vec<i64>, Vec<i64>))
    ensures
        r.0@ == lines_with(lines_view(victim@), lines_view(master@), false),
        r.1@ == lines_with(lines_view(victim@), lines_view(master@), true),
{
    let ghost all = lines_view(victim@);
    let ghost mv = lines_view(master@);
    let mut moved: Vec<i64> = Vec::new();
    let mut dups: Vec<i64> = Vec::new();
    let mut i: usize = 0;
    assert(all.take(0) =~= Seq::<LineKeyV>::empty());
    while i < victim.len()
        invariant
            i <= victim@.len(),
            all == lines_view(victim@),
            mv == lines_view(master@),
            moved@ == lines_with(all.take(i as int), mv, false),
            dups@ == lines_with(all.take(i as int), mv, true),
        decreases victim@.len() - i,
    {
        assert(all.take(i + 1).drop_last() =~= all.take(i as int));
        assert(all.take(i + 1).last() == victim@[i as int]@);
        if key_present(master, &victim[i].values) {
            dups.push(victim[i].id);
        } else {
            moved.push(victim[i].id);
        }
        i += 1;
    }
    assert(all.take(all.len() as int) =~= all);
    (moved, dups)
}

/// Every line of the victim either moves or is retired, and none does both.
pub proof fn law_split_lines(victim: Seq<LineKeyV>, master: Seq<LineKeyV>)
    ensures
        lines_with(victim, master, false).len() + lines_with(victim, master, true).len()
            == victim.len(),
        forall|i: int|
            0 <= i < victim.len() ==> if has_key(master, (#[trigger] victim[i]).values) {
                lines_with(victim, master, true).contains(victim[i].id)
            } else {
                lines_with(victim, master, false).contains(victim[i].id)
            },
    decreases victim.len(),
{
    if victim.len() > 0 {
        let d = victim.drop_last();
        law_split_lines(d, master);
        assert forall|i: int| 0 <= i < victim.len() implies if has_key(
            master,
            (#[trigger] victim[i]).values,
        ) {
            lines_with(victim, master, true).contains(victim[i].id)
        } else {
            lines_with(victim, master, false).contains(victim[i].id)
        } by {
            let dup = has_key(master, victim[i].values);
            let w = lines_with(victim, master, dup);
            let w0 = lines_with(d, master, dup);
            if i < d.len() {
                assert(d[i] == victim[i]);
                let k = choose|k: int| 0 <= k < w0.len() && w0[k] == victim[i].id;
                assert(w[k] == w0[k]);
            } else {
                assert(w[w.len() - 1] == victim[i].id);
            }
        }
    }
}

/// A list of ids as JSON.
pub open spec fn ids_json(ids: Seq<i64>) -> JsonV {
    JsonV::Arr(Seq::new(ids.len(), |i: int| JsonV::Num(number_of(ids[i]))))
}

/// A list of ids as JSON.
pub fn ids_value(ids: &Vec<i64>) -> (r: Json)
    ensures
        r@ == ids_json(ids@),
{
    let mut a: Vec<Json> = Vec::new();
    let mut i: usize = 0;
    while i < ids.len()
        invariant
            i <= ids@.len(),
            a@.len() == i,
            forall|j: int| 0 <= j < i ==> (#[trigger] a@[j])@ == JsonV::Num(number_of(ids@[j])),
        decreases ids@.len() - i,
    {
        a.push(Json::integer(ids[i]));
        i += 1;
    }
    assert(values_view(a@) =~= ids_json(ids@)->Arr_0);
    array(a)
}

/// The ids that a JSON array lists; none where it is no array or one element is no id.
pub open spec fn ids_of(v: Option<JsonV>) -> Seq<i64> {
    match v {
        Some(JsonV::Arr(a)) => if forall|i: int|
            0 <= i < a.len() ==> json_i64(Some(#[trigger] a[i])) is Some {
            Seq::new(a.len(), |i: int| json_i64(Some(a[i])).unwrap())
        } else {
            Seq::empty()
        },
        _ => Seq::empty(),
    }
}

/// The ids that a JSON array lists.
pub fn listed_ids(v: Option<&Json>) -> (r: Vec<i64>)
    ensures
        r@ == ids_of(
            match v {
                Some(x) => Some(x@),
                None => None,
            },
        ),
{
    let mut ids: Vec<i64> = Vec::new();
    if let Some(x) = v {
        if let Some(a) = x.as_array() {
            let ghost av = values_view(a@);
            let mut i: usize = 0;
            while i < a.len()
                invariant
                    i <= a@.len(),
                    av == values_view(a@),
                    x@ == JsonV::Arr(av),
                    v == Some(x),
                    ids@.len() == i,
                    forall|j: int|
                        0 <= j < i ==> json_i64(Some(#[trigger] av[j])) == Some(ids@[j]),
                decreases a@.len() - i,
            {
                match a[i].as_i64() {
                    Some(n) => {
                        ids.push(n);
                    },
                    None => {
                        assert(json_i64(Some(av[i as int])) is None);
                        let none: Vec<i64> = Vec::new();
                        assert(none@ =~= ids_of(Some(x@)));
                        return none;
                    },
                }
                i += 1;
            }
            assert(ids@ =~= ids_of(Some(x@)));
        }
    }
    ids
}

/// Reading back a list of ids gives the ids.
pub proof fn law_ids_read_back(ids: Seq<i64>)
    ensures
        ids_of(Some(ids_json(ids))) == ids,
{
    let a = ids_json(ids)->Arr_0;
    assert forall|i: int| 0 <= i < a.len() implies json_i64(Some(#[trigger] a[i])) == Some(
        ids[i],
    ) by {}
    assert(ids_of(Some(ids_json(ids))) =~= ids);
}

} // verus!
