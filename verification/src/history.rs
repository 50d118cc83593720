//! Translation history: record validation, source names, and the bounded
//! newest-first store that keeps the latest `MAX_HISTORY_RECORDS` entries.
use vstd::prelude::*;

use crate::error::{Error, ErrorKind};
use crate::text::{is_blank, is_blank_str, owned, push_str, str_eq, trim, trim_str};

verus! {

/// How many records the store keeps; older ones are dropped on insert.
pub const MAX_HISTORY_RECORDS: usize = 500;

/// Where a translated text came from.
#[derive(Debug, Clone, Copy, PartialEq, Eq, Structural)]
pub enum HistorySource {
    Text,
    Screenshot,
    Selection,
    Image,
}

/// A stored translation.
#[derive(Debug)]
pub struct HistoryRecord {
    pub id: i64,
    pub created_at: i64,
    pub source: HistorySource,
    pub source_text: String,
    pub target_lang: String,
    pub translated_text: String,
}

/// A translation to store; the store assigns its id and timestamp.
#[derive(Debug)]
pub struct NewHistoryRecord {
    pub source: HistorySource,
    pub source_text: String,
    pub target_lang: String,
    pub translated_text: String,
}

/// A source name read back from storage that names no `HistorySource`.
#[derive(Debug)]
pub struct InvalidHistorySource(pub String);

impl InvalidHistorySource {
    /// `invalid history source: <name>`.
    pub fn message(&self) -> (s: String)
        ensures
            s@ == "invalid history source: "@ + self.0@,
    {
        let mut s = owned("invalid history source: ");
        push_str(&mut s, self.0.as_str());
        s
    }
}

impl HistoryRecord {
    /// A copy of the record with every field equal.
    pub fn duplicate(&self) -> (r: HistoryRecord)
        ensures
            r == *self,
    {
        HistoryRecord {
            id: self.id,
            created_at: self.created_at,
            source: self.source,
            source_text: self.source_text.clone(),
            target_lang: self.target_lang.clone(),
            translated_text: self.translated_text.clone(),
        }
    }
}

impl NewHistoryRecord {
    /// A copy of the record with every field equal.
    pub fn duplicate(&self) -> (r: NewHistoryRecord)
        ensures
            r == *self,
    {
        NewHistoryRecord {
            source: self.source,
            source_text: self.source_text.clone(),
            target_lang: self.target_lang.clone(),
            translated_text: self.translated_text.clone(),
        }
    }
}

/// What is wrong with a record submitted for storage, or `None` when it may be stored.
pub open spec fn record_problem(
    source_text: Seq<char>,
    target_lang: Seq<char>,
    translated_text: Seq<char>,
) -> Option<Seq<char>> {
    if is_blank(source_text) {
        Some("source text cannot be empty"@)
    } else if is_blank(target_lang) {
        Some("target language cannot be empty"@)
    } else if is_blank(translated_text) {
        Some("translated text cannot be empty"@)
    } else {
        None
    }
}

/// Rejects a record whose source text, target language or translation is blank.
pub fn validate_record(record: &NewHistoryRecord) -> (r: Result<(), Error>)
    ensures
        match r {
            Ok(()) => record_problem(
                record.source_text@,
                record.target_lang@,
                record.translated_text@,
            ) is None,
            Err(e) => e@.0 == ErrorKind::History && record_problem(
                record.source_text@,
                record.target_lang@,
                record.translated_text@,
            ) == Some(e@.1),
        },
{
    if is_blank_str(record.source_text.as_str()) {
        return Err(Error::from_str(ErrorKind::History, "source text cannot be empty"));
    }
    if is_blank_str(record.target_lang.as_str()) {
        return Err(Error::from_str(ErrorKind::History, "target language cannot be empty"));
    }
    if is_blank_str(record.translated_text.as_str()) {
        return Err(Error::from_str(ErrorKind::History, "translated text cannot be empty"));
    }
    Ok(())
}

/// The name a source is stored under.
pub open spec fn source_name(source: HistorySource) -> Seq<char> {
    match source {
        HistorySource::Text => "text"@,
        HistorySource::Screenshot => "screenshot"@,
        HistorySource::Selection => "selection"@,
        HistorySource::Image => "image"@,
    }
}

/// The source a stored name stands for.
pub open spec fn source_named(name: Seq<char>) -> Option<HistorySource> {
    if name == "text"@ {
        Some(HistorySource::Text)
    } else if name == "screenshot"@ {
        Some(HistorySource::Screenshot)
    } else if name == "selection"@ {
        Some(HistorySource::Selection)
    } else if name == "image"@ {
        Some(HistorySource::Image)
    } else {
        None
    }
}

/// The name a source is stored under.
pub fn source_to_str(source: &HistorySource) -> (s: &'static str)
    ensures
        s@ == source_name(*source),
{
    match source {
        HistorySource::Text => "text",
        HistorySource::Screenshot => "screenshot",
        HistorySource::Selection => "selection",
        HistorySource::Image => "image",
    }
}

/// The source a stored name stands for; any other name is rejected.
pub fn str_to_source(source: &str) -> (r: Result<HistorySource, InvalidHistorySource>)
    ensures
        match r {
            Ok(s) => source_named(source@) == Some(s),
            Err(e) => source_named(source@) is None && e.0@ == source@,
        },
{
    if str_eq(source, "text") {
        Ok(HistorySource::Text)
    } else if str_eq(source, "screenshot") {
        Ok(HistorySource::Screenshot)
    } else if str_eq(source, "selection") {
        Ok(HistorySource::Selection)
    } else if str_eq(source, "image") {
        Ok(HistorySource::Image)
    } else {
        Err(InvalidHistorySource(owned(source)))
    }
}

/// Reads a source name that a client sent, ignoring surrounding whitespace.
pub fn parse_history_source(source: &str) -> (r: Result<HistorySource, Error>)
    ensures
        match r {
            Ok(s) => source_named(trim(source@)) == Some(s),
            Err(e) => source_named(trim(source@)) is None && e@ == (
                ErrorKind::Config,
                "unsupported history source: "@ + source@,
            ),
        },
{
    let trimmed = trim_str(source);
    match str_to_source(trimmed.as_str()) {
        Ok(s) => Ok(s),
        Err(_) => {
            let mut m = owned("unsupported history source: ");
            push_str(&mut m, source);
            Err(Error::new(ErrorKind::Config, m))
        },
    }
}

/// Milliseconds since the Unix epoch by the system clock, or the text of the error when
/// the clock is before the epoch; `SystemTime::now`, `duration_since` and `as_millis`.
/// Nothing is claimed of the value: it is whatever the clock reads.
#[verifier::external_body]
pub(crate) fn system_time_millis() -> Result<u128, String> {
    std::time::SystemTime::now().duration_since(std::time::UNIX_EPOCH).map(|d| d.as_millis()).map_err(
        |err| format!("{err}"),
    )
}

/// The current time in milliseconds since the Unix epoch, as history timestamps hold it;
/// a clock before the epoch is an error.
pub fn now_ms() -> (r: Result<i64, Error>)
    ensures
        r matches Err(e) ==> e@.0 == ErrorKind::History,
{
    match system_time_millis() {
        Ok(ms) => Ok(ms as i64),
        Err(text) => Err(Error::new(ErrorKind::History, text)),
    }
}

/// `a` is listed before `b`: it is newer, or as new with a higher id.
pub open spec fn newer(a: HistoryRecord, b: HistoryRecord) -> bool {
    a.created_at > b.created_at || (a.created_at == b.created_at && a.id > b.id)
}

/// `s` is listed newest first, each record strictly before the next.
pub open spec fn newest_first(s: Seq<HistoryRecord>) -> bool {
    forall|i: int, j: int| 0 <= i < j < s.len() ==> newer(#[trigger] s[i], #[trigger] s[j])
}

/// `s` with `r` placed where the newest-first order puts it.
pub open spec fn sorted_insert(s: Seq<HistoryRecord>, r: HistoryRecord) -> Seq<HistoryRecord>
    decreases s.len(),
{
    if s.len() == 0 {
        seq![r]
    } else if newer(r, s[0]) {
        seq![r] + s
    } else {
        seq![s[0]] + sorted_insert(s.drop_first(), r)
    }
}

/// No two records of `s` share an id.
pub open spec fn unique_ids(s: Seq<HistoryRecord>) -> bool {
    forall|i: int, j: int| 0 <= i < j < s.len() ==> (#[trigger] s[i]).id != (#[trigger] s[j]).id
}

/// The first `MAX_HISTORY_RECORDS` records of `s`.
pub open spec fn retain(s: Seq<HistoryRecord>) -> Seq<HistoryRecord> {
    if s.len() > MAX_HISTORY_RECORDS {
        s.take(MAX_HISTORY_RECORDS as int)
    } else {
        s
    }
}

/// Records read back from storage that a store may hold: newest first, each id unique
/// and in `1..next_id`, and no blank field.
pub open spec fn consistent_rows(rows: Seq<HistoryRecord>, next_id: int) -> bool {
    &&& 1 <= next_id
    &&& newest_first(rows)
    &&& unique_ids(rows)
    &&& forall|i: int| 0 <= i < rows.len() ==> 1 <= (#[trigger] rows[i]).id < next_id
    &&& forall|i: int|
        0 <= i < rows.len() ==> record_problem(
            (#[trigger] rows[i]).source_text@,
            rows[i].target_lang@,
            rows[i].translated_text@,
        ) is None
}

/// The record the store builds from a submitted one.
pub open spec fn stored_record(r: NewHistoryRecord, id: i64, created_at: i64) -> HistoryRecord {
    HistoryRecord {
        id,
        created_at,
        source: r.source,
        source_text: r.source_text,
        target_lang: r.target_lang,
        translated_text: r.translated_text,
    }
}

/// The number of records `recent(limit)` gives back from `len` stored ones.
pub open spec fn recent_count(len: nat, limit: nat) -> nat {
    let capped = if limit < MAX_HISTORY_RECORDS { limit } else { MAX_HISTORY_RECORDS as nat };
    if capped < len {
        capped
    } else {
        len
    }
}

/// The newest-first list of stored translations, keeping at most `MAX_HISTORY_RECORDS`.
pub struct HistoryStore {
    records: Vec<HistoryRecord>,
    next_id: i64,
}

impl HistoryStore {
    /// The stored records, newest first.
    pub closed spec fn records(&self) -> Seq<HistoryRecord> {
        self.records@
    }

    /// The id the next stored record receives.
    pub closed spec fn next_id(&self) -> int {
        self.next_id as int
    }

    /// Every store keeps its invariant.
    #[verifier::type_invariant]
    spec fn well_formed(self) -> bool {
        self.inv()
    }

    /// What the store keeps true: a newest-first list of at most `MAX_HISTORY_RECORDS`
    /// validated records, each with an id below the next one to hand out.
    pub open spec fn inv(&self) -> bool {
        &&& self.records().len() <= MAX_HISTORY_RECORDS
        &&& newest_first(self.records())
        &&& 1 <= self.next_id() <= i64::MAX
        &&& unique_ids(self.records())
        &&& forall|i: int|
            0 <= i < self.records().len() ==> 1 <= (#[trigger] self.records()[i]).id < self.next_id()
        &&& forall|i: int|
            0 <= i < self.records().len() ==> record_problem(
                (#[trigger] self.records()[i]).source_text@,
                self.records()[i].target_lang@,
                self.records()[i].translated_text@,
            ) is None
    }

    /// An empty store that hands out ids from 1; creating one cannot fail.
    pub fn in_memory() -> (r: Result<HistoryStore, Error>)
        ensures
            r matches Ok(s) && s.inv() && s.records().len() == 0 && s.next_id() == 1,
    {
        Ok(HistoryStore { records: Vec::new(), next_id: 1 })
    }

    /// A store holding `rows` read back from storage, newest first, that hands out ids
    /// from `next_id`; anything beyond the retention limit is dropped. Rows that are out
    /// of order, repeat an id, carry an id outside `1..next_id` or a blank field are refused.
    pub fn restore(rows: Vec<HistoryRecord>, next_id: i64) -> (r: Result<HistoryStore, Error>)
        ensures
            consistent_rows(rows@, next_id as int) ==> (r matches Ok(s) && s.inv() && s.records()
                == retain(rows@) && s.next_id() == next_id),
            !consistent_rows(rows@, next_id as int) ==> (r matches Err(e) && e@ == (
                ErrorKind::History,
                "stored history records are inconsistent"@,
            )),
    {
        if next_id < 1 {
            return Err(Error::from_str(ErrorKind::History, "stored history records are inconsistent"));
        }
        let mut k: usize = 0;
        while k < rows.len()
            invariant
                k <= rows@.len(),
                1 <= next_id,
                forall|i: int, j: int| 0 <= i < j < k ==> newer(#[trigger] rows@[i], #[trigger] rows@[j]),
                forall|i: int, j: int| 0 <= i < j < k ==> (#[trigger] rows@[i]).id != (#[trigger] rows@[j]).id,
                forall|i: int| 0 <= i < k ==> 1 <= (#[trigger] rows@[i]).id < next_id,
                forall|i: int|
                    0 <= i < k ==> record_problem(
                        (#[trigger] rows@[i]).source_text@,
                        rows@[i].target_lang@,
                        rows@[i].translated_text@,
                    ) is None,
            decreases rows.len() - k,
        {
            let row = &rows[k];
            if row.id < 1 || row.id >= next_id || is_blank_str(row.source_text.as_str())
                || is_blank_str(row.target_lang.as_str()) || is_blank_str(
                row.translated_text.as_str(),
            ) {
                return Err(
                    Error::from_str(ErrorKind::History, "stored history records are inconsistent"),
                );
            }
            if k > 0 {
                let prev = &rows[k - 1];
                if !(prev.created_at > row.created_at || (prev.created_at == row.created_at && prev.id
                    > row.id)) {
                    assert(!newest_first(rows@)) by {
                        assert(!newer(rows@[k - 1], rows@[k as int]));
                    }
                    return Err(
                        Error::from_str(ErrorKind::History, "stored history records are inconsistent"),
                    );
                }
            }
            let mut j: usize = 0;
            while j < k
                invariant
                    j <= k < rows@.len(),
                    row == &rows@[k as int],
                    forall|i: int| 0 <= i < j ==> (#[trigger] rows@[i]).id != row.id,
                decreases k - j,
            {
                if rows[j].id == row.id {
                    assert(!unique_ids(rows@)) by {
                        assert(rows@[j as int].id == rows@[k as int].id);
                    }
                    return Err(
                        Error::from_str(ErrorKind::History, "stored history records are inconsistent"),
                    );
                }
                j += 1;
            }
            proof {
                assert forall|i: int, j2: int| 0 <= i < j2 < k + 1 implies newer(
                    #[trigger] rows@[i],
                    #[trigger] rows@[j2],
                ) by {
                    if j2 == k as int && i < k - 1 {
                        assert(newer(rows@[i], rows@[k - 1]));
                        assert(newer(rows@[k - 1], rows@[k as int]));
                    }
                }
            }
            k += 1;
        }
        let mut records = rows;
        if records.len() > MAX_HISTORY_RECORDS {
            records.truncate(MAX_HISTORY_RECORDS);
        }
        Ok(HistoryStore { records, next_id })
    }

    /// How many records are stored.
    pub fn len(&self) -> (n: usize)
        ensures
            n == self.records().len(),
    {
        self.records.len()
    }

    /// Validates `record`, stamps it with the next id and the clock's time, stores it in
    /// newest-first order and drops whatever lies beyond the retention limit.
    pub fn insert(&mut self, record: NewHistoryRecord) -> (r: Result<HistoryRecord, Error>)
        ensures
            old(self).inv(),
            final(self).inv(),
            record_problem(record.source_text@, record.target_lang@, record.translated_text@) matches Some(
                p,
            ) ==> final(self).records() == old(self).records() && final(self).next_id()
                == old(self).next_id() && (r matches Err(e) && e@ == (ErrorKind::History, p)),
            r matches Err(e) ==> e@.0 == ErrorKind::History,
            r matches Ok(stored) ==> stored.id == old(self).next_id() && stored == stored_record(
                record,
                stored.id,
                stored.created_at,
            ) && final(self).records() == retain(sorted_insert(old(self).records(), stored)),
    {
        proof {
            use_type_invariant(&*self);
        }
        match validate_record(&record) {
            Ok(()) => {},
            Err(e) => {
                return Err(e);
            },
        }
        let created_at = match now_ms() {
            Ok(t) => t,
            Err(e) => {
                return Err(e);
            },
        };
        self.insert_at(record, created_at)
    }

    /// Stores `record` with timestamp `created_at`: the validated record receives the next id,
    /// takes its newest-first place, and the list is cut back to the retention limit.
    /// The stored record comes back unless the cut dropped it.
    pub fn insert_at(&mut self, record: NewHistoryRecord, created_at: i64) -> (r: Result<
        HistoryRecord,
        Error,
    >)
        ensures
            old(self).inv(),
            final(self).inv(),
            match record_problem(record.source_text@, record.target_lang@, record.translated_text@) {
                Some(problem) => final(self).records() == old(self).records() && final(self).next_id()
                    == old(self).next_id() && (r matches Err(e) && e@ == (ErrorKind::History, problem)),
                None => if old(self).next_id() == i64::MAX {
                    final(self).records() == old(self).records() && final(self).next_id()
                        == old(self).next_id() && (r matches Err(e) && e@ == (
                        ErrorKind::History,
                        "history record ids are exhausted"@,
                    ))
                } else {
                    let stored = stored_record(record, old(self).next_id() as i64, created_at);
                    &&& final(self).next_id() == old(self).next_id() + 1
                    &&& final(self).records() == retain(sorted_insert(old(self).records(), stored))
                    &&& if final(self).records().contains(stored) {
                        r == Ok::<HistoryRecord, Error>(stored)
                    } else {
                        r matches Err(e) && e@ == (
                            ErrorKind::History,
                            "inserted history record was not found"@,
                        )
                    }
                },
            },
    {
        proof {
            use_type_invariant(&*self);
        }
        validate_record(&record)?;
        if self.next_id == i64::MAX {
            return Err(Error::from_str(ErrorKind::History, "history record ids are exhausted"));
        }
        let id = self.next_id;
        let stored = HistoryRecord {
            id,
            created_at,
            source: record.source,
            source_text: record.source_text,
            target_lang: record.target_lang,
            translated_text: record.translated_text,
        };
        let mut records: Vec<HistoryRecord> = Vec::new();
        std::mem::swap(&mut records, &mut self.records);
        let ghost old_records = records@;
        let mut p: usize = 0;
        while p < records.len() && !(created_at > records[p].created_at || (created_at
            == records[p].created_at && id > records[p].id))
            invariant
                p <= records@.len(),
                records@ == old_records,
                stored.created_at == created_at,
                stored.id == id,
                forall|k: int| 0 <= k < p ==> !newer(stored, #[trigger] old_records[k]),
            decreases records@.len() - p,
        {
            p += 1;
        }
        proof {
            lemma_sorted_insert_at(old_records, stored, p as int);
        }
        let kept = stored.duplicate();
        records.insert(p, stored);
        assert(records@ == sorted_insert(old_records, kept));
        if records.len() > MAX_HISTORY_RECORDS {
            records.truncate(MAX_HISTORY_RECORDS);
        }
        let updated = HistoryStore { records, next_id: id + 1 };
        proof {
            lemma_sorted_insert_keeps_order(old_records, kept);
            lemma_sorted_insert_unique(old_records, kept);
            assert(updated.records@ == retain(sorted_insert(old_records, kept)));
            let s = sorted_insert(old_records, kept);
            assert forall|i: int, j: int| 0 <= i < j < updated.records@.len() implies (
            #[trigger] updated.records@[i]).id != (#[trigger] updated.records@[j]).id by {
                assert(updated.records@[i] == s[i] && updated.records@[j] == s[j]);
            }
            lemma_sorted_insert_members(old_records, kept);
            assert forall|i: int| 0 <= i < updated.records@.len() implies 1 <= (
            #[trigger] updated.records@[i]).id < updated.next_id by {
                assert(updated.records@[i] == s[i]);
            }
            assert forall|i: int| 0 <= i < updated.records@.len() implies record_problem(
                (#[trigger] updated.records@[i]).source_text@,
                updated.records@[i].target_lang@,
                updated.records@[i].translated_text@,
            ) is None by {
                assert(updated.records@[i] == s[i]);
            }
        }
        *self = updated;
        if self.contains_id(id) {
            Ok(kept)
        } else {
            Err(Error::from_str(ErrorKind::History, "inserted history record was not found"))
        }
    }

    /// Whether a stored record has id `id`.
    fn contains_id(&self, id: i64) -> (b: bool)
        requires
            newest_first(self.records()),
        ensures
            b == exists|i: int| 0 <= i < self.records().len() && (#[trigger] self.records()[i]).id == id,
    {
        let mut k: usize = 0;
        while k < self.records.len()
            invariant
                k <= self.records@.len(),
                forall|i: int| 0 <= i < k ==> (#[trigger] self.records@[i]).id != id,
            decreases self.records@.len() - k,
        {
            if self.records[k].id == id {
                return true;
            }
            k += 1;
        }
        false
    }

    /// The `limit` newest records, never more than `MAX_HISTORY_RECORDS`, newest first;
    /// reading them cannot fail.
    pub fn recent(&self, limit: usize) -> (r: Result<Vec<HistoryRecord>, Error>)
        ensures
            self.inv(),
            r matches Ok(v) && v@ == self.records().take(
                recent_count(self.records().len(), limit as nat) as int,
            ),
    {
        proof {
            use_type_invariant(self);
        }
        let capped = if limit < MAX_HISTORY_RECORDS {
            limit
        } else {
            MAX_HISTORY_RECORDS
        };
        let n = if capped < self.records.len() {
            capped
        } else {
            self.records.len()
        };
        let mut r: Vec<HistoryRecord> = Vec::new();
        let mut k: usize = 0;
        while k < n
            invariant
                k <= n <= self.records@.len(),
                r@ == self.records@.take(k as int),
            decreases n - k,
        {
            r.push(self.records[k].duplicate());
            assert(self.records@.take(k + 1) == self.records@.take(k as int).push(self.records@[k as int]));
            k += 1;
        }
        Ok(r)
    }

    /// The stored record with id `id`, if any.
    pub fn get(&self, id: i64) -> (r: Option<HistoryRecord>)
        ensures
            self.inv(),
            match r {
                Some(rec) => rec.id == id && self.records().contains(rec),
                None => forall|i: int| 0 <= i < self.records().len() ==> (#[trigger] self.records()[i]).id != id,
            },
    {
        proof {
            use_type_invariant(self);
        }
        let mut k: usize = 0;
        while k < self.records.len()
            invariant
                self.inv(),
                k <= self.records@.len(),
                forall|i: int| 0 <= i < k ==> (#[trigger] self.records@[i]).id != id,
            decreases self.records@.len() - k,
        {
            if self.records[k].id == id {
                let rec = self.records[k].duplicate();
                assert(self.records@[k as int] == rec);
                return Some(rec);
            }
            k += 1;
        }
        None
    }

    /// Removes every record; ids keep counting from where they were. Clearing cannot fail.
    pub fn clear(&mut self) -> (r: Result<(), Error>)
        ensures
            old(self).inv(),
            r is Ok,
            final(self).inv(),
            final(self).records().len() == 0,
            final(self).next_id() == old(self).next_id(),
    {
        proof {
            use_type_invariant(&*self);
        }
        self.records = Vec::new();
        Ok(())
    }
}

/// Inserting before the first record that `r` is newer than gives `sorted_insert`.
pub proof fn lemma_sorted_insert_at(s: Seq<HistoryRecord>, r: HistoryRecord, p: int)
    requires
        0 <= p <= s.len(),
        forall|k: int| 0 <= k < p ==> !newer(r, #[trigger] s[k]),
        p < s.len() ==> newer(r, s[p]),
    ensures
        sorted_insert(s, r) == s.take(p).push(r) + s.skip(p),
        s.insert(p, r) == sorted_insert(s, r),
    decreases p,
{
    if p == 0 {
        if s.len() == 0 {
            assert(s.take(0).push(r) + s.skip(0) =~= seq![r]);
        } else {
            assert(s.take(0).push(r) + s.skip(0) =~= seq![r] + s);
        }
    } else {
        let t = s.drop_first();
        assert forall|k: int| 0 <= k < p - 1 implies !newer(r, #[trigger] t[k]) by {
            assert(t[k] == s[k + 1]);
        }
        lemma_sorted_insert_at(t, r, p - 1);
        assert(s.take(p).push(r) + s.skip(p) =~= seq![s[0]] + (t.take(p - 1).push(r) + t.skip(p - 1)));
    }
    assert(s.insert(p, r) =~= s.take(p).push(r) + s.skip(p));
}

/// `sorted_insert` keeps a newest-first list newest first when the new record's id is fresh.
pub proof fn lemma_sorted_insert_keeps_order(s: Seq<HistoryRecord>, r: HistoryRecord)
    requires
        newest_first(s),
        forall|i: int| 0 <= i < s.len() ==> (#[trigger] s[i]).id < r.id,
    ensures
        newest_first(sorted_insert(s, r)),
        sorted_insert(s, r).len() == s.len() + 1,
    decreases s.len(),
{
    if s.len() > 0 && !newer(r, s[0]) {
        let t = s.drop_first();
        assert forall|i: int, j: int| 0 <= i < j < t.len() implies newer(#[trigger] t[i], #[trigger] t[j]) by {
            assert(t[i] == s[i + 1] && t[j] == s[j + 1]);
        }
        assert forall|i: int| 0 <= i < t.len() implies (#[trigger] t[i]).id < r.id by {
            assert(t[i] == s[i + 1]);
        }
        lemma_sorted_insert_keeps_order(t, r);
        lemma_sorted_insert_members(t, r);
        let u = sorted_insert(t, r);
        assert(newer(s[0], r));
        assert forall|i: int, j: int| 0 <= i < j < u.len() + 1 implies newer(
            #[trigger] (seq![s[0]] + u)[i],
            #[trigger] (seq![s[0]] + u)[j],
        ) by {
            if i == 0 {
                let x = u[j - 1];
                if x == r {
                } else {
                    let k = choose|k: int| 0 <= k < t.len() && t[k] == x;
                    assert(s[k + 1] == x);
                }
            }
        }
    } else if s.len() > 0 {
        assert forall|i: int, j: int| 0 <= i < j < s.len() + 1 implies newer(
            #[trigger] (seq![r] + s)[i],
            #[trigger] (seq![r] + s)[j],
        ) by {
            if i == 0 {
                assert(newer(r, s[0]));
                if j > 1 {
                    assert(newer(s[0], s[j - 1]));
                }
            }
        }
    }
}

/// Every record of `sorted_insert(s, r)` is `r` or a record of `s`.
pub proof fn lemma_sorted_insert_members(s: Seq<HistoryRecord>, r: HistoryRecord)
    ensures
        forall|i: int|
            0 <= i < sorted_insert(s, r).len() ==> #[trigger] sorted_insert(s, r)[i] == r || exists|
                k: int,
            | 0 <= k < s.len() && s[k] == sorted_insert(s, r)[i],
        sorted_insert(s, r).contains(r),
    decreases s.len(),
{
    if s.len() > 0 && !newer(r, s[0]) {
        let t = s.drop_first();
        lemma_sorted_insert_members(t, r);
        let u = sorted_insert(t, r);
        assert forall|i: int|
            0 <= i < sorted_insert(s, r).len() implies #[trigger] sorted_insert(s, r)[i] == r
            || exists|k: int| 0 <= k < s.len() && s[k] == sorted_insert(s, r)[i] by {
            if i == 0 {
                assert(s[0] == sorted_insert(s, r)[0]);
            } else {
                assert(sorted_insert(s, r)[i] == u[i - 1]);
                if u[i - 1] != r {
                    let k = choose|k: int| 0 <= k < t.len() && t[k] == u[i - 1];
                    assert(s[k + 1] == t[k]);
                }
            }
        }
        let j = choose|j: int| 0 <= j < u.len() && u[j] == r;
        assert(sorted_insert(s, r)[j + 1] == r);
    } else if s.len() > 0 {
        assert(sorted_insert(s, r)[0] == r);
        assert forall|i: int| 0 <= i < sorted_insert(s, r).len() implies #[trigger] sorted_insert(s, r)[i]
            == r || exists|k: int| 0 <= k < s.len() && s[k] == sorted_insert(s, r)[i] by {
            if i > 0 {
                assert(s[i - 1] == sorted_insert(s, r)[i]);
            }
        }
    } else {
        assert(sorted_insert(s, r)[0] == r);
    }
}


/// `sorted_insert` keeps ids unique when the new record's id is fresh.
pub proof fn lemma_sorted_insert_unique(s: Seq<HistoryRecord>, r: HistoryRecord)
    requires
        unique_ids(s),
        forall|i: int| 0 <= i < s.len() ==> (#[trigger] s[i]).id < r.id,
    ensures
        unique_ids(sorted_insert(s, r)),
    decreases s.len(),
{
    if s.len() > 0 && !newer(r, s[0]) {
        let t = s.drop_first();
        assert forall|i: int, j: int| 0 <= i < j < t.len() implies (#[trigger] t[i]).id != (
        #[trigger] t[j]).id by {
            assert(t[i] == s[i + 1] && t[j] == s[j + 1]);
        }
        assert forall|i: int| 0 <= i < t.len() implies (#[trigger] t[i]).id < r.id by {
            assert(t[i] == s[i + 1]);
        }
        lemma_sorted_insert_unique(t, r);
        lemma_sorted_insert_members(t, r);
        let u = sorted_insert(t, r);
        assert forall|i: int, j: int| 0 <= i < j < u.len() + 1 implies (#[trigger] (seq![s[0]]
            + u)[i]).id != (#[trigger] (seq![s[0]] + u)[j]).id by {
            if i == 0 {
                let x = u[j - 1];
                if x != r {
                    let k = choose|k: int| 0 <= k < t.len() && t[k] == x;
                    assert(s[k + 1] == x);
                }
            } else {
                assert((seq![s[0]] + u)[i] == u[i - 1]);
                assert((seq![s[0]] + u)[j] == u[j - 1]);
            }
        }
    } else if s.len() > 0 {
        assert forall|i: int, j: int| 0 <= i < j < s.len() + 1 implies (#[trigger] (seq![r]
            + s)[i]).id != (#[trigger] (seq![r] + s)[j]).id by {
            if i > 0 {
                assert((seq![r] + s)[i] == s[i - 1]);
                assert((seq![r] + s)[j] == s[j - 1]);
            } else {
                assert((seq![r] + s)[j] == s[j - 1]);
            }
        }
    }
}

} // verus!
