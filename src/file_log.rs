use vstd::prelude::*;

use crate::error::{ShortUrlStorageError, StorageError, E};
use crate::record::{expired_at, opt_view, RecordModel, ShortUrlData};

verus! {

pub const NEWLINE: u8 = 10;

pub const CARRIAGE_RETURN: u8 = 13;

/// A line without its carriage return, if it ended in one.
pub open spec fn strip_cr(l: Seq<u8>) -> Seq<u8> {
    if l.len() > 0 && l.last() == CARRIAGE_RETURN {
        l.drop_last()
    } else {
        l
    }
}

/// Scanning `c` from the left: the lines completed so far, and the bytes of
/// the line still open.
pub open spec fn scan(c: Seq<u8>) -> (Seq<Seq<u8>>, Seq<u8>)
    decreases c.len(),
{
    if c.len() == 0 {
        (Seq::empty(), Seq::empty())
    } else {
        let (done, cur) = scan(c.drop_last());
        if c.last() == NEWLINE {
            (done.push(strip_cr(cur)), Seq::empty())
        } else {
            (done, cur.push(c.last()))
        }
    }
}

/// The lines of a log's contents: split at each newline, a trailing carriage
/// return dropped, and a last line without newline kept if it is not empty.
pub open spec fn lines_of(c: Seq<u8>) -> Seq<Seq<u8>> {
    let (done, cur) = scan(c);
    if cur.len() > 0 {
        done.push(strip_cr(cur))
    } else {
        done
    }
}

/// A serialized record that can stand as one line: not empty, with no line
/// break in it.
pub open spec fn is_line(raw: Seq<u8>) -> bool {
    raw.len() > 0 && forall|i: int|
        0 <= i < raw.len() ==> #[trigger] raw[i] != NEWLINE && raw[i] != CARRIAGE_RETURN
}

/// Whether an entry of the log is a live record under `hash` at time `now`.
pub open spec fn is_live_match(e: Option<RecordModel>, hash: Seq<char>, now: int) -> bool {
    match e {
        Some(r) => r.hash == hash && !expired_at(r, now),
        None => false,
    }
}

/// Lookup in a log of parsed lines (`None` for a line that did not parse):
/// the first live record under `hash`.
pub open spec fn lookup(log: Seq<Option<RecordModel>>, hash: Seq<char>, now: int) -> Option<
    RecordModel,
>
    decreases log.len(),
{
    if log.len() == 0 {
        None
    } else if is_live_match(log[0], hash, now) {
        log[0]
    } else {
        lookup(log.drop_first(), hash, now)
    }
}

/// The values of parsed log lines.
pub open spec fn log_view(entries: Seq<Option<ShortUrlData>>) -> Seq<Option<RecordModel>> {
    entries.map_values(|e: Option<ShortUrlData>| opt_view(e))
}

/// No record of the log carries `hash`.
pub open spec fn hash_absent(log: Seq<Option<RecordModel>>, hash: Seq<char>) -> bool {
    forall|j: int|
        0 <= j < log.len() ==> match #[trigger] log[j] {
            Some(r) => r.hash != hash,
            None => true,
        }
}

/// Splits the contents of a log into its lines.
pub fn split_lines(content: &Vec<u8>) -> (r: Vec<Vec<u8>>)
    ensures
        r@.map_values(|l: Vec<u8>| l@) == lines_of(content@),
{
    let mut lines: Vec<Vec<u8>> = Vec::new();
    let mut cur: Vec<u8> = Vec::new();
    let mut i: usize = 0;
    while i < content.len()
        invariant
            0 <= i <= content.len(),
            (lines@.map_values(|l: Vec<u8>| l@), cur@) == scan(content@.subrange(0, i as int)),
        decreases content.len() - i,
    {
        let b = content[i];
        proof {
            assert(content@.subrange(0, i + 1).drop_last() =~= content@.subrange(0, i as int));
        }
        if b == NEWLINE {
            let line = strip_carriage_return(cur);
            lines.push(line);
            cur = Vec::new();
            proof {
                assert(lines@.map_values(|l: Vec<u8>| l@) =~= scan(
                    content@.subrange(0, i + 1),
                ).0);
                assert(cur@ =~= scan(content@.subrange(0, i + 1)).1);
            }
        } else {
            cur.push(b);
            proof {
                assert(lines@.map_values(|l: Vec<u8>| l@) =~= scan(
                    content@.subrange(0, i + 1),
                ).0);
            }
        }
        i += 1;
    }
    proof {
        assert(content@.subrange(0, content.len() as int) =~= content@);
    }
    if cur.len() > 0 {
        let line = strip_carriage_return(cur);
        lines.push(line);
        proof {
            assert(lines@.map_values(|l: Vec<u8>| l@) =~= lines_of(content@));
        }
    }
    lines
}

fn strip_carriage_return(line: Vec<u8>) -> (r: Vec<u8>)
    ensures
        r@ == strip_cr(line@),
{
    let ghost before = line@;
    let mut line = line;
    if line.len() > 0 && line[line.len() - 1] == CARRIAGE_RETURN {
        line.pop();
        proof {
            assert(line@ =~= strip_cr(before));
        }
    }
    line
}

/// The bytes to append to the log for one serialized record: the record and a
/// newline. A serialization that is empty or would break the line is refused.
pub fn frame_record(raw: &Vec<u8>) -> (r: E<Vec<u8>>)
    ensures
        is_line(raw@) <==> r is Ok,
        r is Ok ==> r->Ok_0@ == raw@.push(NEWLINE),
        r is Err ==> r->Err_0.error == StorageError::ErrorOnSave,
{
    if raw.len() == 0 {
        return Err(ShortUrlStorageError::error_on_save());
    }
    let mut out: Vec<u8> = Vec::new();
    let mut i: usize = 0;
    while i < raw.len()
        invariant
            0 <= i <= raw.len(),
            out@ == raw@.subrange(0, i as int),
            forall|k: int| 0 <= k < i ==> #[trigger] raw@[k] != NEWLINE && raw@[k] != CARRIAGE_RETURN,
        decreases raw.len() - i,
    {
        let b = raw[i];
        if b == NEWLINE || b == CARRIAGE_RETURN {
            return Err(ShortUrlStorageError::error_on_save());
        }
        out.push(b);
        proof {
            assert(out@ =~= raw@.subrange(0, i + 1));
        }
        i += 1;
    }
    out.push(NEWLINE);
    proof {
        assert(out@ =~= raw@.push(NEWLINE));
    }
    Ok(out)
}

/// Looks `hash` up in the parsed lines of a log at time `now`: the first
/// record under `hash` that has not expired, or `None`. Lines that did not
/// parse are skipped, and the lookup itself never fails.
pub fn find_in_log(entries: &Vec<Option<ShortUrlData>>, hash: &String, now: i64) -> (r: E<
    Option<ShortUrlData>,
>)
    ensures
        r is Ok,
        opt_view(r->Ok_0) == lookup(log_view(entries@), hash@, now as int),
{
    let ghost log = log_view(entries@);
    proof {
        assert(log.subrange(0, log.len() as int) =~= log);
    }
    let mut i: usize = 0;
    while i < entries.len()
        invariant
            0 <= i <= entries.len(),
            log == log_view(entries@),
            lookup(log, hash@, now as int) == lookup(
                log.subrange(i as int, log.len() as int),
                hash@,
                now as int,
            ),
        decreases entries.len() - i,
    {
        proof {
            assert(log.subrange(i as int, log.len() as int).drop_first() =~= log.subrange(
                i + 1,
                log.len() as int,
            ));
        }
        match &entries[i] {
            Some(d) => {
                if d.hash == *hash && !d.is_expired(now) {
                    return Ok(Some(d.duplicate()));
                }
            },
            None => {},
        }
        i += 1;
    }
    Ok(None)
}

/// A log that ends at a line boundary.
pub open spec fn at_line_start(content: Seq<u8>) -> bool {
    scan(content).1.len() == 0
}

proof fn lemma_scan_open_line(content: Seq<u8>, raw: Seq<u8>, k: int)
    requires
        at_line_start(content),
        is_line(raw),
        0 <= k <= raw.len(),
    ensures
        scan(content + raw.subrange(0, k)) == (scan(content).0, raw.subrange(0, k)),
    decreases k,
{
    if k == 0 {
        assert(content + raw.subrange(0, 0) =~= content);
        assert(raw.subrange(0, 0) =~= scan(content).1);
    } else {
        lemma_scan_open_line(content, raw, k - 1);
        assert((content + raw.subrange(0, k)).drop_last() =~= content + raw.subrange(0, k - 1));
        assert(raw.subrange(0, k - 1).push(raw[k - 1]) =~= raw.subrange(0, k));
    }
}

/// Appending a framed record to a log that ends at a line boundary adds
/// exactly that record as its last line, and the log again ends at a line
/// boundary.
pub proof fn lemma_append_frame(content: Seq<u8>, raw: Seq<u8>)
    requires
        at_line_start(content),
        is_line(raw),
    ensures
        lines_of(content + raw.push(NEWLINE)) == lines_of(content).push(raw),
        at_line_start(content + raw.push(NEWLINE)),
{
    lemma_scan_open_line(content, raw, raw.len() as int);
    let c2 = content + raw.push(NEWLINE);
    assert(c2.drop_last() =~= content + raw.subrange(0, raw.len() as int));
    assert(raw.subrange(0, raw.len() as int) =~= raw);
    assert(strip_cr(raw) == raw);
}

/// Lookup skips a prefix of the log that holds no live record under `hash`.
pub proof fn lemma_lookup_skips(a: Seq<Option<RecordModel>>, b: Seq<Option<RecordModel>>, hash: Seq<char>, now: int)
    requires
        forall|j: int| 0 <= j < a.len() ==> !is_live_match(#[trigger] a[j], hash, now),
    ensures
        lookup(a + b, hash, now) == lookup(b, hash, now),
    decreases a.len(),
{
    if a.len() > 0 {
        assert((a + b).drop_first() =~= a.drop_first() + b);
        lemma_lookup_skips(a.drop_first(), b, hash, now);
    } else {
        assert(a + b =~= b);
    }
}

/// A lookup of a hash that no record of the log carries finds nothing.
pub proof fn lemma_never_saved(log: Seq<Option<RecordModel>>, hash: Seq<char>, now: int)
    requires
        hash_absent(log, hash),
    ensures
        lookup(log, hash, now) == None::<RecordModel>,
{
    lemma_lookup_skips(log, Seq::empty(), hash, now);
    assert(log + Seq::<Option<RecordModel>>::empty() =~= log);
}

/// A record saved under a fresh hash is found by that hash as long as it has
/// not expired.
pub proof fn lemma_find_after_save(log: Seq<Option<RecordModel>>, r: RecordModel, now: int)
    requires
        hash_absent(log, r.hash),
        !expired_at(r, now),
    ensures
        lookup(log.push(Some(r)), r.hash, now) == Some(r),
{
    lemma_lookup_skips(log, seq![Some(r)], r.hash, now);
    assert(log.push(Some(r)) =~= log + seq![Some(r)]);
}

/// A record saved without TTL under a fresh hash is found at every time.
pub proof fn lemma_saved_without_ttl(log: Seq<Option<RecordModel>>, r: RecordModel, now: int)
    requires
        hash_absent(log, r.hash),
        r.ttl is None,
    ensures
        lookup(log.push(Some(r)), r.hash, now) == Some(r),
{
    lemma_find_after_save(log, r, now);
}

/// A record saved with TTL `t` under a fresh hash is found one second before
/// its creation time plus `t`, and no longer one second after it.
pub proof fn lemma_ttl_window(log: Seq<Option<RecordModel>>, r: RecordModel, t: u64)
    requires
        hash_absent(log, r.hash),
        r.ttl == Some(t),
    ensures
        lookup(log.push(Some(r)), r.hash, r.created_at + t - 1) == Some(r),
        lookup(log.push(Some(r)), r.hash, r.created_at + t + 1) == None::<RecordModel>,
{
    lemma_find_after_save(log, r, r.created_at + t - 1);
    let l2 = log.push(Some(r));
    assert forall|j: int| 0 <= j < l2.len() implies !is_live_match(
        #[trigger] l2[j],
        r.hash,
        r.created_at + t + 1,
    ) by {
        if j < log.len() {
            assert(l2[j] == log[j]);
        }
    }
    lemma_lookup_skips(l2, Seq::empty(), r.hash, r.created_at + t + 1);
    assert(l2 + Seq::<Option<RecordModel>>::empty() =~= l2);
}

/// A line that did not parse, wherever it stands, changes no lookup.
pub proof fn lemma_corrupt_line_skipped(
    a: Seq<Option<RecordModel>>,
    b: Seq<Option<RecordModel>>,
    hash: Seq<char>,
    now: int,
)
    ensures
        lookup(a + seq![None] + b, hash, now) == lookup(a + b, hash, now),
    decreases a.len(),
{
    if a.len() == 0 {
        assert(a + seq![None] + b =~= seq![None] + b);
        assert((seq![None] + b).drop_first() =~= b);
        assert(a + b =~= b);
    } else {
        assert((a + seq![None] + b).drop_first() =~= a.drop_first() + seq![None] + b);
        assert((a + b).drop_first() =~= a.drop_first() + b);
        assert((a + seq![None] + b)[0] == a[0]);
        assert((a + b)[0] == a[0]);
        lemma_corrupt_line_skipped(a.drop_first(), b, hash, now);
    }
}

/// Records saved one after another under pairwise distinct fresh hashes are
/// each found by their own hash while they have not expired, in whatever
/// order the saves came.
pub proof fn lemma_distinct_saves_found(
    log: Seq<Option<RecordModel>>,
    recs: Seq<RecordModel>,
    now: int,
    k: int,
)
    requires
        0 <= k < recs.len(),
        forall|i: int| 0 <= i < recs.len() ==> hash_absent(log, #[trigger] recs[i].hash),
        forall|i: int, j: int|
            0 <= i < recs.len() && 0 <= j < recs.len() && i != j ==> recs[i].hash != recs[j].hash,
        forall|i: int| 0 <= i < recs.len() ==> !expired_at(#[trigger] recs[i], now),
    ensures
        lookup(log + recs.map_values(|x: RecordModel| Some(x)), recs[k].hash, now) == Some(
            recs[k],
        ),
{
    let saved = recs.map_values(|x: RecordModel| Some(x));
    let a = log + saved.subrange(0, k);
    let b = saved.subrange(k, saved.len() as int);
    assert(log + saved =~= a + b);
    assert forall|j: int| 0 <= j < a.len() implies !is_live_match(#[trigger] a[j], recs[k].hash, now) by {
        if j < log.len() {
            assert(a[j] == log[j]);
            assert(hash_absent(log, recs[k].hash));
        } else {
            assert(a[j] == Some(recs[j - log.len()]));
        }
    }
    lemma_lookup_skips(a, b, recs[k].hash, now);
    assert(b[0] == Some(recs[k]));
}

} // verus!
