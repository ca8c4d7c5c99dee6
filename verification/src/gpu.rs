use vstd::prelude::*;
use crate::text::{
    chars_of, str_eq, string_from_chars, trim, trim_chars, sub_chars, split_on, split_on_exec,
    seq_view, find_from, find_from_exec, lemma_find_from_bounds, chars_eq,
};

verus! {

/// What a GPU instance is doing, as the pool records it.
#[derive(Clone, Copy, Debug, PartialEq, Eq, Structural)]
pub enum GpuInstanceStatus {
    Available,
    WakingUp,
    Busy,
    Error,
}

pub open spec fn status_text(s: GpuInstanceStatus) -> Seq<char> {
    match s {
        GpuInstanceStatus::Available => "available"@,
        GpuInstanceStatus::WakingUp => "waking_up"@,
        GpuInstanceStatus::Busy => "busy"@,
        GpuInstanceStatus::Error => "error"@,
    }
}

pub open spec fn status_from_text(s: Seq<char>) -> GpuInstanceStatus {
    if s == "available"@ {
        GpuInstanceStatus::Available
    } else if s == "waking_up"@ {
        GpuInstanceStatus::WakingUp
    } else if s == "busy"@ {
        GpuInstanceStatus::Busy
    } else {
        GpuInstanceStatus::Error
    }
}

impl GpuInstanceStatus {
    /// The stored name of the status.
    pub fn to_string(&self) -> (res: &'static str)
        ensures
            res@ == status_text(*self),
    {
        match self {
            GpuInstanceStatus::Available => "available",
            GpuInstanceStatus::WakingUp => "waking_up",
            GpuInstanceStatus::Busy => "busy",
            GpuInstanceStatus::Error => "error",
        }
    }

    /// Reads a stored name; an unknown one reads as `Error`.
    pub fn from_string(s: &str) -> (res: GpuInstanceStatus)
        ensures
            res == status_from_text(s@),
    {
        if str_eq(s, "available") {
            GpuInstanceStatus::Available
        } else if str_eq(s, "waking_up") {
            GpuInstanceStatus::WakingUp
        } else if str_eq(s, "busy") {
            GpuInstanceStatus::Busy
        } else {
            GpuInstanceStatus::Error
        }
    }
}

/// Reading back a stored status gives the status.
pub proof fn lemma_status_round_trip(s: GpuInstanceStatus)
    ensures
        status_from_text(status_text(s)) == s,
{
    reveal_strlit("available");
    reveal_strlit("waking_up");
    reveal_strlit("busy");
    reveal_strlit("error");
    assert("waking_up"@[0] != "available"@[0]);
    assert("busy"@[0] != "available"@[0]);
    assert("busy"@[0] != "waking_up"@[0]);
    assert("error"@[0] != "available"@[0]);
    assert("error"@[0] != "waking_up"@[0]);
    assert("error"@[0] != "busy"@[0]);
}

/// A GPU instance of the pool.
pub struct GpuInstance {
    pub server_id: String,
    pub service_url: String,
    pub status: GpuInstanceStatus,
    pub current_job_id: Option<String>,
}

pub open spec fn immers_status(s: Seq<char>) -> GpuInstanceStatus {
    if s == "SHELVED_OFFLOADED"@ {
        GpuInstanceStatus::Available
    } else if s == "ACTIVE"@ {
        GpuInstanceStatus::Busy
    } else {
        GpuInstanceStatus::Error
    }
}

/// The pool status of an instance whose cloud status is `s`: a shelved
/// instance can be taken, an active one is working, anything else is an error.
pub fn status_from_immers(s: &str) -> (res: GpuInstanceStatus)
    ensures
        res == immers_status(s@),
{
    if str_eq(s, "SHELVED_OFFLOADED") {
        GpuInstanceStatus::Available
    } else if str_eq(s, "ACTIVE") {
        GpuInstanceStatus::Busy
    } else {
        GpuInstanceStatus::Error
    }
}

/// Seconds to wait before status check `n` of a running job: checks come
/// less often as the job runs longer.
pub open spec fn adaptive_interval(n: u32) -> u64 {
    if 1 <= n <= 20 {
        3
    } else if 21 <= n <= 50 {
        6
    } else if 51 <= n <= 100 {
        12
    } else {
        25
    }
}

/// Seconds to wait before status check `check_number`.
pub fn get_adaptive_interval(check_number: u32) -> (res: u64)
    ensures
        res == adaptive_interval(check_number),
{
    if 1 <= check_number && check_number <= 20 {
        3
    } else if 21 <= check_number && check_number <= 50 {
        6
    } else if 51 <= check_number && check_number <= 100 {
        12
    } else {
        25
    }
}


/// Why the instance list could not be read.
#[derive(Clone, Copy, Debug, PartialEq, Eq, Structural)]
pub enum GpuConfigError {
    /// An entry without a colon between server id and address.
    InvalidFormat,
    /// No entry at all.
    NoInstances,
}

/// A configured instance: server id and service address.
pub type ConfigEntry = (Seq<char>, Seq<char>);

/// The server id and address of one comma-separated entry: the trimmed text
/// before its first colon and after it.
pub open spec fn config_entry(seg: Seq<char>) -> Option<ConfigEntry> {
    let t = trim(seg);
    match find_from(t, ":"@, 0) {
        None => None,
        Some(p) => Some((t.subrange(0, p), t.subrange(p + 1, t.len() as int))),
    }
}

/// Where the entry for server `k` stands.
pub open spec fn key_position(entries: Seq<ConfigEntry>, k: Seq<char>) -> Option<int>
    decreases entries.len(),
{
    if entries.len() == 0 {
        None
    } else if entries.last().0 == k {
        Some(entries.len() - 1)
    } else {
        key_position(entries.drop_last(), k)
    }
}

/// `entries` with server `k` at address `v`: its entry replaced, or a new
/// one at the end.
pub open spec fn upsert(entries: Seq<ConfigEntry>, k: Seq<char>, v: Seq<char>) -> Seq<ConfigEntry> {
    match key_position(entries, k) {
        Some(p) => entries.update(p, (k, v)),
        None => entries.push((k, v)),
    }
}

/// The entries read from the segments, a later address for a server
/// replacing an earlier one.
pub open spec fn read_segments(segs: Seq<Seq<char>>) -> Result<Seq<ConfigEntry>, GpuConfigError>
    decreases segs.len(),
{
    if segs.len() == 0 {
        Ok(Seq::empty())
    } else {
        match read_segments(segs.drop_last()) {
            Err(e) => Err(e),
            Ok(es) => match config_entry(segs.last()) {
                None => Err(GpuConfigError::InvalidFormat),
                Some(kv) => Ok(upsert(es, kv.0, kv.1)),
            },
        }
    }
}

/// The instance list `server_id:url,server_id:url,...`.
pub open spec fn gpu_config(config: Seq<char>) -> Result<Seq<ConfigEntry>, GpuConfigError> {
    match read_segments(split_on(config, ","@)) {
        Err(e) => Err(e),
        Ok(es) => if es.len() == 0 {
            Err(GpuConfigError::NoInstances)
        } else {
            Ok(es)
        },
    }
}

pub open spec fn distinct_keys(entries: Seq<ConfigEntry>) -> bool {
    forall|i: int, j: int| 0 <= i < j < entries.len() ==> entries[i].0 != entries[j].0
}

pub proof fn lemma_key_position(entries: Seq<ConfigEntry>, k: Seq<char>)
    ensures
        match key_position(entries, k) {
            Some(p) => 0 <= p < entries.len() && entries[p].0 == k,
            None => forall|i: int| 0 <= i < entries.len() ==> entries[i].0 != k,
        },
    decreases entries.len(),
{
    if entries.len() > 0 && entries.last().0 != k {
        lemma_key_position(entries.drop_last(), k);
        assert forall|i: int| 0 <= i < entries.len() - 1 implies entries[i] == entries.drop_last()[i] by {}
    }
}

proof fn lemma_upsert_distinct(entries: Seq<ConfigEntry>, k: Seq<char>, v: Seq<char>)
    requires
        distinct_keys(entries),
    ensures
        distinct_keys(upsert(entries, k, v)),
{
    lemma_key_position(entries, k);
}

/// Every server is configured once: reading the instance list never gives
/// two entries for one server id.
pub proof fn lemma_config_servers_distinct(segs: Seq<Seq<char>>)
    ensures
        read_segments(segs) matches Ok(es) ==> distinct_keys(es),
    decreases segs.len(),
{
    if segs.len() > 0 {
        lemma_config_servers_distinct(segs.drop_last());
        match read_segments(segs.drop_last()) {
            Ok(es) => match config_entry(segs.last()) {
                Some(kv) => lemma_upsert_distinct(es, kv.0, kv.1),
                None => {},
            },
            Err(_) => {},
        }
    }
}

pub open spec fn entries_view(v: Seq<(Vec<char>, Vec<char>)>) -> Seq<ConfigEntry> {
    v.map_values(|e: (Vec<char>, Vec<char>)| (e.0@, e.1@))
}

fn upsert_exec(entries: &mut Vec<(Vec<char>, Vec<char>)>, k: Vec<char>, v: Vec<char>)
    ensures
        entries_view(final(entries)@) == upsert(entries_view(old(entries)@), k@, v@),
{
    let ghost before = entries_view(entries@);
    let mut i: usize = entries.len();
    assert(before.subrange(0, i as int) =~= before);
    while i > 0
        invariant
            i <= entries@.len(),
            before == entries_view(entries@),
            entries@ == old(entries)@,
            key_position(before, k@) == key_position(before.subrange(0, i as int), k@),
        decreases i,
    {
        let ghost pre = before.subrange(0, i as int);
        if chars_eq(&entries[i - 1].0, &k) {
            proof {
                assert(pre.last() == before[i - 1]);
                assert(key_position(pre, k@) == Some(i - 1));
                assert(upsert(before, k@, v@) == before.update(i - 1, (k@, v@)));
            }
            entries.set(i - 1, (k, v));
            proof {
                assert(entries_view(entries@) =~= before.update(i - 1, (k@, v@)));
            }
            return;
        }
        proof {
            assert(pre.drop_last() =~= before.subrange(0, i - 1));
        }
        i = i - 1;
    }
    proof {
        assert(before.subrange(0, 0) =~= Seq::<ConfigEntry>::empty());
    }
    let ghost kv = (k@, v@);
    assert(key_position(before, k@) is None);
    assert(upsert(before, k@, v@) == before.push(kv));
    entries.push((k, v));
    proof {
        assert(entries_view(entries@) =~= before.push(kv));
    }
}

fn read_entry(seg: &Vec<char>) -> (res: Option<(Vec<char>, Vec<char>)>)
    ensures
        match res {
            Some(e) => config_entry(seg@) == Some((e.0@, e.1@)),
            None => config_entry(seg@) is None,
        },
{
    let t = trim_chars(seg.as_slice());
    let colon: Vec<char> = vec![':'];
    assert(colon@ =~= ":"@) by {
        reveal_strlit(":");
    }
    let found = find_from_exec(t.as_slice(), colon.as_slice(), 0);
    proof {
        lemma_find_from_bounds(t@, colon@, 0);
    }
    match found {
        None => None,
        Some(p) => {
            assert(p + 1 <= t@.len());
            assert(t@.len() == t.len());
            let server = sub_chars(t.as_slice(), 0, p);
            let url = sub_chars(t.as_slice(), p + 1, t.len());
            Some((server, url))
        },
    }
}

/// Reads the instance list `server_id:url,server_id:url,...` (the text after
/// the first colon of an entry is its address). A later entry for a server
/// replaces an earlier one.
pub fn parse_gpu_instances(config: &str) -> (res: Result<Vec<(String, String)>, GpuConfigError>)
    ensures
        match (res, gpu_config(config@)) {
            (Ok(v), Ok(es)) => v@.map_values(|e: (String, String)| (e.0@, e.1@)) == es,
            (Err(e1), Err(e2)) => e1 == e2,
            _ => false,
        },
{
    let chars = chars_of(config);
    let comma: Vec<char> = vec![','];
    assert(comma@ =~= ","@) by {
        reveal_strlit(",");
    }
    let segs = split_on_exec(chars.as_slice(), comma.as_slice());
    let ghost sv = seq_view(segs@);
    let mut entries: Vec<(Vec<char>, Vec<char>)> = Vec::new();
    let mut i: usize = 0;
    assert(sv.take(0) =~= Seq::<Seq<char>>::empty());
    assert(entries_view(entries@) =~= Seq::<ConfigEntry>::empty());
    while i < segs.len()
        invariant
            i <= segs@.len(),
            sv == seq_view(segs@),
            sv == split_on(config@, ","@),
            read_segments(sv.take(i as int)) == Ok::<Seq<ConfigEntry>, GpuConfigError>(
                entries_view(entries@),
            ),
        decreases segs.len() - i,
    {
        let ghost pre = sv.take(i as int);
        proof {
            assert(sv.take(i + 1).drop_last() =~= pre);
            assert(sv.take(i + 1).last() == segs@[i as int]@);
        }
        match read_entry(&segs[i]) {
            None => {
                proof {
                    lemma_prefix_error(sv, i as int + 1);
                }
                return Err(GpuConfigError::InvalidFormat);
            },
            Some(kv) => {
                upsert_exec(&mut entries, kv.0, kv.1);
            },
        }
        i = i + 1;
    }
    proof {
        assert(sv.take(segs@.len() as int) =~= sv);
    }
    if entries.len() == 0 {
        return Err(GpuConfigError::NoInstances);
    }
    let mut out: Vec<(String, String)> = Vec::new();
    let mut j: usize = 0;
    while j < entries.len()
        invariant
            j <= entries@.len(),
            out@.map_values(|e: (String, String)| (e.0@, e.1@)) =~= entries_view(entries@).take(
                j as int,
            ),
        decreases entries.len() - j,
    {
        let server = string_from_chars(entries[j].0.as_slice());
        let url = string_from_chars(entries[j].1.as_slice());
        let ghost before = out@;
        out.push((server, url));
        proof {
            assert(out@ =~= before.push((server, url)));
            assert(entries_view(entries@).take(j + 1) =~= entries_view(entries@).take(j as int).push(
                entries_view(entries@)[j as int],
            ));
        }
        j = j + 1;
    }
    proof {
        assert(entries_view(entries@).take(entries@.len() as int) =~= entries_view(entries@));
    }
    Ok(out)
}

/// Once a prefix of the segments fails to read, so does every longer one.
proof fn lemma_prefix_error(segs: Seq<Seq<char>>, n: int)
    requires
        0 <= n <= segs.len(),
        read_segments(segs.take(n)) is Err,
    ensures
        read_segments(segs) == Err::<Seq<ConfigEntry>, GpuConfigError>(GpuConfigError::InvalidFormat),
    decreases segs.len(),
{
    if n == segs.len() {
        assert(segs.take(n) =~= segs);
        lemma_read_error_kind(segs);
    } else {
        assert(segs.drop_last().take(n) =~= segs.take(n));
        lemma_prefix_error(segs.drop_last(), n);
    }
}

proof fn lemma_read_error_kind(segs: Seq<Seq<char>>)
    ensures
        read_segments(segs) is Err ==> read_segments(segs) == Err::<Seq<ConfigEntry>, GpuConfigError>(
            GpuConfigError::InvalidFormat,
        ),
    decreases segs.len(),
{
    if segs.len() > 0 {
        lemma_read_error_kind(segs.drop_last());
    }
}

} // verus!
