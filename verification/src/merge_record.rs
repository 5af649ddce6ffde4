//! The record of a merge: what became of the detail lines, all in all and victim by victim.

use crate::json::{
    array, json_get, json_i64, law_get_after_put, number_of, obj_get, obj_put, values_view, Json,
    JsonV, ObjV, Object,
};
use crate::merge_parts::{
    ids_json, ids_of, ids_value, law_ids_read_back, listed_ids, LineTableInfo,
};
use crate::text::same_text;
use vstd::prelude::*;

verus! {

/// How often a detail table is listed.
pub open spec fn listed(tables: Seq<LineTableInfo>, table: Seq<char>) -> nat
    decreases tables.len(),
{
    if tables.len() == 0 {
        0
    } else {
        listed(tables.drop_last(), table) + (if tables.last().table@ == table {
            1nat
        } else {
            0nat
        })
    }
}

/// What the lines of a detail table are recorded under: its name; where it is listed more than
/// once, the column that points at the head row stands behind it.
pub open spec fn line_key(tables: Seq<LineTableInfo>, t: LineTableInfo) -> Seq<char> {
    if listed(tables, t.table@) > 1 {
        t.table@ + "."@ + t.parent_field@
    } else {
        t.table@
    }
}

/// What the lines of a detail table are recorded under.
pub fn key_of_lines(tables: &Vec<LineTableInfo>, t: &LineTableInfo) -> (r: String)
    ensures
        r@ == line_key(tables@, *t),
{
    let ghost all = tables@;
    let mut n: usize = 0;
    let mut i: usize = 0;
    assert(all.take(0) =~= Seq::<LineTableInfo>::empty());
    while i < tables.len()
        invariant
            i <= tables@.len(),
            all == tables@,
            n <= i,
            n == listed(all.take(i as int), t.table@),
        decreases tables@.len() - i,
    {
        assert(all.take(i + 1).drop_last() =~= all.take(i as int));
        assert(all.take(i + 1).last() == all[i as int]);
        if same_text(tables[i].table.as_str(), t.table.as_str()) {
            n += 1;
        }
        i += 1;
    }
    assert(all.take(all.len() as int) =~= all);
    let mut r: String = t.table.clone();
    if n > 1 {
        r.append(".");
        r.append(t.parent_field.as_str());
    }
    r
}

/// What became of the lines of a victim in a detail table.
#[derive(Debug)]
pub struct LineNote {
    pub victim: i64,
    /// What the lines are recorded under.
    pub key: String,
    /// Those that went to the master.
    pub moved: Vec<i64>,
    /// Those that were retired; `None` for a table whose lines are never retired.
    pub retired: Option<Vec<i64>>,
}

/// What a note stands for.
#[verifier::ext_equal]
pub struct NoteV {
    pub victim: i64,
    pub key: Seq<char>,
    pub moved: Seq<i64>,
    pub retired: Option<Seq<i64>>,
}

impl LineNote {
    pub open spec fn view(&self) -> NoteV {
        NoteV {
            victim: self.victim,
            key: self.key@,
            moved: self.moved@,
            retired: match self.retired {
                Some(r) => Some(r@),
                None => None,
            },
        }
    }
}

/// The views of a list of notes.
pub open spec fn notes_view(n: Seq<LineNote>) -> Seq<NoteV> {
    Seq::new(n.len(), |i: int| n[i]@)
}

/// The two things that become of lines.
#[derive(Debug, Clone, Copy, PartialEq, Eq, Structural)]
pub enum Fate {
    Moved,
    Retired,
}

/// Whether a note speaks of lines with a fate.
pub open spec fn speaks_of(n: NoteV, f: Fate) -> bool {
    f == Fate::Moved || n.retired is Some
}

/// The lines of a note with a fate.
pub open spec fn note_ids(n: NoteV, f: Fate) -> Seq<i64> {
    match f {
        Fate::Moved => n.moved,
        Fate::Retired => match n.retired {
            Some(r) => r,
            None => Seq::empty(),
        },
    }
}

/// All lines under a key with a fate, note by note.
pub open spec fn noted_ids(notes: Seq<NoteV>, key: Seq<char>, f: Fate) -> Seq<i64>
    decreases notes.len(),
{
    if notes.len() == 0 {
        Seq::empty()
    } else {
        let r = noted_ids(notes.drop_last(), key, f);
        if notes.last().key == key {
            r + note_ids(notes.last(), f)
        } else {
            r
        }
    }
}

/// How many lines have a fate in all.
pub open spec fn noted_total(notes: Seq<NoteV>, f: Fate) -> nat
    decreases notes.len(),
{
    if notes.len() == 0 {
        0
    } else {
        noted_total(notes.drop_last(), f) + note_ids(notes.last(), f).len()
    }
}

/// The notes of one victim.
pub open spec fn notes_of(notes: Seq<NoteV>, victim: i64) -> Seq<NoteV>
    decreases notes.len(),
{
    if notes.len() == 0 {
        Seq::empty()
    } else {
        let r = notes_of(notes.drop_last(), victim);
        if notes.last().victim == victim {
            r.push(notes.last())
        } else {
            r
        }
    }
}

/// For each key that notes speak of the lines with a fate.
pub open spec fn fate_object(notes: Seq<NoteV>, f: Fate) -> ObjV
    decreases notes.len(),
{
    if notes.len() == 0 {
        Seq::empty()
    } else {
        let o = fate_object(notes.drop_last(), f);
        if speaks_of(notes.last(), f) {
            obj_put(
                o,
                notes.last().key,
                ids_json(noted_ids(notes, notes.last().key, f)),
            )
        } else {
            o
        }
    }
}

/// `o` with the lines that moved and those that were retired.
pub open spec fn with_lines(o: ObjV, notes: Seq<NoteV>) -> ObjV {
    obj_put(
        obj_put(o, "reparented"@, JsonV::Obj(fate_object(notes, Fate::Moved))),
        "deduped"@,
        JsonV::Obj(fate_object(notes, Fate::Retired)),
    )
}

/// What became of the lines of one victim.
pub open spec fn victim_entry(notes: Seq<NoteV>, victim: i64) -> JsonV {
    JsonV::Obj(
        with_lines(
            obj_put(Seq::empty(), "id"@, JsonV::Num(number_of(victim))),
            notes_of(notes, victim),
        ),
    )
}

/// The record of a merge: which value each field got, which lines moved and which were retired;
/// with more than one victim also which of them were whose.
pub open spec fn record_value(fields: JsonV, notes: Seq<NoteV>, victims: Seq<i64>) -> JsonV {
    let o = with_lines(obj_put(Seq::empty(), "fields"@, fields), notes);
    if victims.len() > 1 {
        JsonV::Obj(
            obj_put(
                o,
                "victims"@,
                JsonV::Arr(
                    Seq::new(victims.len(), |i: int| victim_entry(notes, victims[i])),
                ),
            ),
        )
    } else {
        JsonV::Obj(o)
    }
}

fn ids_noted(notes: &Vec<LineNote>, n: usize, key: &str, f: Fate) -> (r: Vec<i64>)
    requires
        n <= notes@.len(),
    ensures
        r@ == noted_ids(notes_view(notes@).take(n as int), key@, f),
{
    let ghost all = notes_view(notes@);
    let mut ids: Vec<i64> = Vec::new();
    let mut i: usize = 0;
    assert(all.take(0) =~= Seq::<NoteV>::empty());
    while i < n
        invariant
            i <= n <= notes@.len(),
            all == notes_view(notes@),
            ids@ == noted_ids(all.take(i as int), key@, f),
        decreases n - i,
    {
        assert(all.take(i + 1).drop_last() =~= all.take(i as int));
        assert(all.take(i + 1).last() == notes@[i as int]@);
        if same_text(notes[i].key.as_str(), key) {
            let ghost before = ids@;
            match f {
                Fate::Moved => push_copies(&mut ids, &notes[i].moved),
                Fate::Retired => match &notes[i].retired {
                    Some(r) => push_copies(&mut ids, r),
                    None => {},
                },
            }
            assert(ids@ =~= before + note_ids(notes@[i as int]@, f));
        }
        i += 1;
    }
    ids
}

fn push_copies(to: &mut Vec<i64>, from: &Vec<i64>)
    ensures
        final(to)@ == old(to)@ + from@,
{
    let ghost start = to@;
    let mut i: usize = 0;
    while i < from.len()
        invariant
            i <= from@.len(),
            to@ == start + from@.take(i as int),
        decreases from@.len() - i,
    {
        to.push(from[i]);
        assert(from@.take(i + 1) =~= from@.take(i as int).push(from@[i as int]));
        i += 1;
    }
    assert(from@.take(from@.len() as int) =~= from@);
}

fn copies(ids: &Vec<i64>) -> (r: Vec<i64>)
    ensures
        r@ == ids@,
{
    let mut out: Vec<i64> = Vec::new();
    push_copies(&mut out, ids);
    assert(out@ =~= ids@);
    out
}

fn fates(notes: &Vec<LineNote>, f: Fate) -> (r: Object)
    ensures
        r@ == fate_object(notes_view(notes@), f),
{
    let ghost all = notes_view(notes@);
    let mut o = Object::new();
    let mut i: usize = 0;
    assert(all.take(0) =~= Seq::<NoteV>::empty());
    while i < notes.len()
        invariant
            i <= notes@.len(),
            all == notes_view(notes@),
            o@ == fate_object(all.take(i as int), f),
        decreases notes@.len() - i,
    {
        assert(all.take(i + 1).drop_last() =~= all.take(i as int));
        assert(all.take(i + 1).last() == notes@[i as int]@);
        let speaks: bool = match f {
            Fate::Moved => true,
            Fate::Retired => notes[i].retired.is_some(),
        };
        if speaks {
            let ids = ids_noted(notes, i + 1, notes[i].key.as_str(), f);
            o.insert(notes[i].key.clone(), ids_value(&ids));
        }
        i += 1;
    }
    assert(all.take(all.len() as int) =~= all);
    o
}

fn add_lines(o: Object, notes: &Vec<LineNote>) -> (r: Object)
    ensures
        r@ == with_lines(o@, notes_view(notes@)),
{
    let mut r: Object = o;
    r.insert("reparented".to_owned(), Json::Obj(fates(notes, Fate::Moved)));
    r.insert("deduped".to_owned(), Json::Obj(fates(notes, Fate::Retired)));
    r
}

fn notes_for(notes: &Vec<LineNote>, victim: i64) -> (r: Vec<LineNote>)
    ensures
        notes_view(r@) == notes_of(notes_view(notes@), victim),
{
    let ghost all = notes_view(notes@);
    let mut out: Vec<LineNote> = Vec::new();
    let mut i: usize = 0;
    assert(all.take(0) =~= Seq::<NoteV>::empty());
    assert(notes_view(out@) =~= Seq::<NoteV>::empty());
    while i < notes.len()
        invariant
            i <= notes@.len(),
            all == notes_view(notes@),
            notes_view(out@) == notes_of(all.take(i as int), victim),
        decreases notes@.len() - i,
    {
        assert(all.take(i + 1).drop_last() =~= all.take(i as int));
        assert(all.take(i + 1).last() == notes@[i as int]@);
        if notes[i].victim == victim {
            let ghost before = out@;
            let n = LineNote {
                victim,
                key: notes[i].key.clone(),
                moved: copies(&notes[i].moved),
                retired: match &notes[i].retired {
                    Some(r) => Some(copies(r)),
                    None => None,
                },
            };
            assert(n@ =~= notes@[i as int]@);
            out.push(n);
            assert(notes_view(out@) =~= notes_view(before).push(n@));
        }
        i += 1;
    }
    assert(all.take(all.len() as int) =~= all);
    out
}

/// The record of a merge.
pub fn write_record(fields: Json, notes: &Vec<LineNote>, victims: &Vec<i64>) -> (r: Json)
    ensures
        r@ == record_value(fields@, notes_view(notes@), victims@),
{
    let ghost nv = notes_view(notes@);
    let mut start = Object::new();
    start.insert("fields".to_owned(), fields);
    let mut o = add_lines(start, notes);
    if victims.len() > 1 {
        let mut a: Vec<Json> = Vec::new();
        let mut i: usize = 0;
        while i < victims.len()
            invariant
                i <= victims@.len(),
                nv == notes_view(notes@),
                a@.len() == i,
                forall|j: int|
                    0 <= j < i ==> (#[trigger] a@[j])@ == victim_entry(nv, victims@[j]),
            decreases victims@.len() - i,
        {
            let mut e = Object::new();
            e.insert("id".to_owned(), Json::integer(victims[i]));
            a.push(Json::Obj(add_lines(e, &notes_for(notes, victims[i]))));
            i += 1;
        }
        assert(values_view(a@) =~= Seq::new(
            victims@.len(),
            |i: int| victim_entry(nv, victims@[i]),
        ));
        o.insert("victims".to_owned(), array(a));
    }
    Json::Obj(o)
}

/// How many lines have a fate in all, cut to what a counter holds.
pub open spec fn counter(n: nat) -> u64 {
    if n <= u64::MAX {
        n as u64
    } else {
        u64::MAX
    }
}

/// How many lines have a fate in all.
pub fn count_noted(notes: &Vec<LineNote>, f: Fate) -> (r: u64)
    ensures
        r == counter(noted_total(notes_view(notes@), f)),
{
    let ghost all = notes_view(notes@);
    let mut sum: u64 = 0;
    let mut i: usize = 0;
    assert(all.take(0) =~= Seq::<NoteV>::empty());
    while i < notes.len()
        invariant
            i <= notes@.len(),
            all == notes_view(notes@),
            sum == counter(noted_total(all.take(i as int), f)),
        decreases notes@.len() - i,
    {
        assert(all.take(i + 1).drop_last() =~= all.take(i as int));
        assert(all.take(i + 1).last() == notes@[i as int]@);
        let k: u64 = match f {
            Fate::Moved => notes[i].moved.len() as u64,
            Fate::Retired => match &notes[i].retired {
                Some(r) => r.len() as u64,
                None => 0,
            },
        };
        sum = sum.saturating_add(k);
        i += 1;
    }
    assert(all.take(all.len() as int) =~= all);
    sum
}

/// The ids that a record lists under `part` and a key.
pub open spec fn recorded_ids(record: JsonV, part: Seq<char>, key: Seq<char>) -> Seq<i64> {
    match json_get(record, part) {
        Some(p) => ids_of(json_get(p, key)),
        None => Seq::empty(),
    }
}

/// The ids that a record lists under `part` and a key.
pub fn ids_in_record(record: &Json, part: &str, key: &str) -> (r: Vec<i64>)
    ensures
        r@ == recorded_ids(record@, part@, key@),
{
    match record.get(part) {
        Some(p) => listed_ids(p.get(key)),
        None => Vec::new(),
    }
}

/// The first entry of a victim.
pub open spec fn entry_of(entries: Seq<JsonV>, victim: i64) -> JsonV
    decreases entries.len(),
{
    if entries.len() == 0 {
        JsonV::Null
    } else if json_i64(json_get(entries[0], "id"@)) == Some(victim) {
        entries[0]
    } else {
        entry_of(entries.drop_first(), victim)
    }
}

/// What a record says of the lines of one victim: all that it says, where it tells no victims
/// apart.
pub open spec fn lines_record(record: JsonV, victim: i64) -> JsonV {
    match json_get(record, "victims"@) {
        Some(JsonV::Arr(a)) => entry_of(a, victim),
        _ => record,
    }
}

/// What a record says of the lines of one victim.
pub fn lines_of_victim(record: &Json, victim: i64) -> (r: Json)
    ensures
        r@ == lines_record(record@, victim),
{
    if let Some(v) = record.get("victims") {
        if let Some(a) = v.as_array() {
            let ghost all = values_view(a@);
            let mut i: usize = 0;
            assert(all.skip(0) =~= all);
            while i < a.len()
                invariant
                    i <= a@.len(),
                    all == values_view(a@),
                    json_get(record@, "victims"@) == Some(JsonV::Arr(all)),
                    entry_of(all, victim) == entry_of(all.skip(i as int), victim),
                decreases a@.len() - i,
            {
                assert(all.skip(i as int)[0] == a@[i as int]@);
                assert(all.skip(i as int).drop_first() =~= all.skip(i + 1));
                if let Some(v) = a[i].get("id") {
                    if let Some(n) = v.as_i64() {
                        if n == victim {
                            return a[i].clone();
                        }
                    }
                }
                i += 1;
            }
            return Json::Null;
        }
    }
    record.clone()
}

/// What a lookup finds of a key in the lines with a fate.
proof fn lemma_fate_get(notes: Seq<NoteV>, f: Fate, key: Seq<char>)
    ensures
        match obj_get(fate_object(notes, f), key) {
            Some(v) => v == ids_json(noted_ids(notes, key, f)),
            None => noted_ids(notes, key, f).len() == 0,
        },
    decreases notes.len(),
{
    if notes.len() > 0 {
        let d = notes.drop_last();
        let n = notes.last();
        lemma_fate_get(d, f, key);
        if speaks_of(n, f) {
            law_get_after_put(
                fate_object(d, f),
                n.key,
                ids_json(noted_ids(notes, n.key, f)),
                key,
            );
        } else {
            assert(noted_ids(notes, key, f) =~= noted_ids(d, key, f));
        }
    }
}

/// The lines that are written into an object are read back from it, and its other members stay.
proof fn lemma_with_lines(o: ObjV, notes: Seq<NoteV>, key: Seq<char>, k: Seq<char>)
    ensures
        recorded_ids(JsonV::Obj(with_lines(o, notes)), "reparented"@, key) == noted_ids(
            notes,
            key,
            Fate::Moved,
        ),
        recorded_ids(JsonV::Obj(with_lines(o, notes)), "deduped"@, key) == noted_ids(
            notes,
            key,
            Fate::Retired,
        ),
        k != "reparented"@ && k != "deduped"@ ==> obj_get(with_lines(o, notes), k) == obj_get(o, k),
{
    reveal_strlit("reparented");
    reveal_strlit("deduped");
    assert("reparented"@.len() == 10 && "deduped"@.len() == 7);
    let m = JsonV::Obj(fate_object(notes, Fate::Moved));
    let x = JsonV::Obj(fate_object(notes, Fate::Retired));
    let p = obj_put(o, "reparented"@, m);
    law_get_after_put(o, "reparented"@, m, "reparented"@);
    law_get_after_put(o, "reparented"@, m, k);
    law_get_after_put(p, "deduped"@, x, "reparented"@);
    law_get_after_put(p, "deduped"@, x, "deduped"@);
    law_get_after_put(p, "deduped"@, x, k);
    lemma_fate_get(notes, Fate::Moved, key);
    lemma_fate_get(notes, Fate::Retired, key);
    law_ids_read_back(noted_ids(notes, key, Fate::Moved));
    law_ids_read_back(noted_ids(notes, key, Fate::Retired));
    assert(noted_ids(notes, key, Fate::Moved).len() == 0 ==> noted_ids(notes, key, Fate::Moved)
        =~= Seq::<i64>::empty());
    assert(noted_ids(notes, key, Fate::Retired).len() == 0 ==> noted_ids(
        notes,
        key,
        Fate::Retired,
    ) =~= Seq::<i64>::empty());
}

/// The record lists under each key all lines that moved and all that were retired, whichever
/// victim they were of.
pub proof fn law_record_lists_all(
    fields: JsonV,
    notes: Seq<NoteV>,
    victims: Seq<i64>,
    key: Seq<char>,
)
    ensures
        recorded_ids(record_value(fields, notes, victims), "reparented"@, key) == noted_ids(
            notes,
            key,
            Fate::Moved,
        ),
        recorded_ids(record_value(fields, notes, victims), "deduped"@, key) == noted_ids(
            notes,
            key,
            Fate::Retired,
        ),
{
    reveal_strlit("reparented");
    reveal_strlit("deduped");
    reveal_strlit("victims");
    assert("reparented"@.len() == 10 && "deduped"@.len() == 7 && "victims"@.len() == 7);
    assert("deduped"@[0] == 'd' && "victims"@[0] == 'v');
    let s = obj_put(Seq::empty(), "fields"@, fields);
    let o = with_lines(s, notes);
    lemma_with_lines(s, notes, key, "victims"@);
    let a = JsonV::Arr(Seq::new(victims.len(), |i: int| victim_entry(notes, victims[i])));
    law_get_after_put(o, "victims"@, a, "reparented"@);
    law_get_after_put(o, "victims"@, a, "deduped"@);
}

/// The record tells of each victim which lines were its own.
pub proof fn law_record_tells_victims(
    fields: JsonV,
    notes: Seq<NoteV>,
    victims: Seq<i64>,
    victim: i64,
    key: Seq<char>,
)
    requires
        victims.contains(victim),
        forall|i: int| 0 <= i < notes.len() ==> victims.contains((#[trigger] notes[i]).victim),
    ensures
        recorded_ids(
            lines_record(record_value(fields, notes, victims), victim),
            "reparented"@,
            key,
        ) == noted_ids(notes_of(notes, victim), key, Fate::Moved),
        recorded_ids(
            lines_record(record_value(fields, notes, victims), victim),
            "deduped"@,
            key,
        ) == noted_ids(notes_of(notes, victim), key, Fate::Retired),
{
    reveal_strlit("reparented");
    reveal_strlit("deduped");
    reveal_strlit("victims");
    reveal_strlit("fields");
    reveal_strlit("id");
    assert("reparented"@.len() == 10 && "deduped"@.len() == 7 && "victims"@.len() == 7
        && "fields"@.len() == 6 && "id"@.len() == 2);
    assert("deduped"@[0] == 'd' && "victims"@[0] == 'v');
    let s = obj_put(Seq::empty(), "fields"@, fields);
    let o = with_lines(s, notes);
    lemma_with_lines(s, notes, key, "victims"@);
    law_get_after_put(Seq::empty(), "fields"@, fields, "victims"@);
    let entries = Seq::new(victims.len(), |i: int| victim_entry(notes, victims[i]));
    law_get_after_put(o, "victims"@, JsonV::Arr(entries), "victims"@);
    if victims.len() > 1 {
        lemma_entry_of(notes, victims, victim);
        let e = obj_put(Seq::empty(), "id"@, JsonV::Num(number_of(victim)));
        lemma_with_lines(e, notes_of(notes, victim), key, "id"@);
    } else {
        assert(victims.len() == 1);
        assert forall|i: int| 0 <= i < notes.len() implies (#[trigger] notes[i]).victim
            == victim by {
            assert(victims.contains(notes[i].victim));
        }
        lemma_all_of_one(notes, victim);
        law_record_lists_all(fields, notes, victims, key);
    }
}

proof fn lemma_entry_of(notes: Seq<NoteV>, victims: Seq<i64>, victim: i64)
    requires
        victims.contains(victim),
    ensures
        entry_of(Seq::new(victims.len(), |i: int| victim_entry(notes, victims[i])), victim)
            == victim_entry(notes, victim),
    decreases victims.len(),
{
    let entries = Seq::new(victims.len(), |i: int| victim_entry(notes, victims[i]));
    reveal_strlit("reparented");
    reveal_strlit("deduped");
    reveal_strlit("id");
    assert("reparented"@.len() == 10 && "deduped"@.len() == 7 && "id"@.len() == 2);
    let v = victims[0];
    let e = obj_put(Seq::empty(), "id"@, JsonV::Num(number_of(v)));
    lemma_with_lines(e, notes_of(notes, v), Seq::empty(), "id"@);
    law_get_after_put(Seq::empty(), "id"@, JsonV::Num(number_of(v)), "id"@);
    assert(json_i64(json_get(entries[0], "id"@)) == Some(v));
    if v != victim {
        let d = victims.drop_first();
        let n = choose|n: int| 0 <= n < victims.len() && victims[n] == victim;
        assert(d[n - 1] == victim);
        lemma_entry_of(notes, d, victim);
        assert(entries.drop_first() =~= Seq::new(d.len(), |i: int| victim_entry(notes, d[i])));
    }
}

proof fn lemma_all_of_one(notes: Seq<NoteV>, victim: i64)
    requires
        forall|i: int| 0 <= i < notes.len() ==> (#[trigger] notes[i]).victim == victim,
    ensures
        notes_of(notes, victim) == notes,
    decreases notes.len(),
{
    if notes.len() > 0 {
        let d = notes.drop_last();
        assert forall|i: int| 0 <= i < d.len() implies (#[trigger] d[i]).victim == victim by {
            assert(d[i] == notes[i]);
        }
        lemma_all_of_one(d, victim);
        assert(notes.last() == notes[notes.len() - 1]);
        assert(notes_of(notes, victim) =~= notes);
    } else {
        assert(notes_of(notes, victim) =~= notes);
    }
}

} // verus!
