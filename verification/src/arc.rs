//! ARC statistics, read from the text of `/proc/spl/kstat/zfs/arcstats`:
//! a kstat header line, a column line, then `name type value` rows.
use vstd::prelude::*;
use crate::strmap::{has_entry, keys_increase, StrMap};
use crate::text::{chars_of, is_whitespace, is_ws, lines, lines_of, parse_u64, parse_uint, push_char, views};

verus! {

/// Why arcstats could not be read.
#[derive(Debug)]
pub enum ArcStatsError {
    /// The file could not be read.
    Read { path: String, source: std::io::Error },
    /// Fewer than the two header lines; `got` is how many there were.
    Header { got: usize },
}

/// The words of `s`, as `str::split_whitespace` gives them: the maximal
/// runs of non-whitespace characters, in order.
pub open spec fn words(s: Seq<char>) -> Seq<Seq<char>>
    decreases s.len(),
{
    if s.len() == 0 {
        Seq::<Seq<char>>::empty()
    } else {
        let w = words(s.drop_last());
        let c = s.last();
        if is_ws(c) {
            w
        } else if s.len() >= 2 && !is_ws(s[s.len() - 2]) {
            w.update(w.len() - 1, w.last().push(c))
        } else {
            w.push(seq![c])
        }
    }
}

/// Text ending in a non-whitespace character has a word.
pub proof fn lemma_words_nonempty(s: Seq<char>)
    requires
        s.len() > 0,
        !is_ws(s.last()),
    ensures
        words(s).len() > 0,
    decreases s.len(),
{
    if s.len() >= 2 && !is_ws(s[s.len() - 2]) {
        assert(s.drop_last().last() == s[s.len() - 2]);
        lemma_words_nonempty(s.drop_last());
    }
}

/// `str::split_whitespace`.
pub fn split_whitespace(s: &str) -> (r: Vec<String>)
    ensures
        views(r@) == words(s@),
{
    let v = chars_of(s);
    let mut r: Vec<String> = Vec::new();
    let mut i: usize = 0;
    assert(v@.take(0) =~= Seq::<char>::empty());
    while i < v.len()
        invariant
            i <= v@.len(),
            v@ == s@,
            views(r@) == words(v@.take(i as int)),
        decreases v@.len() - i,
    {
        let c = v[i];
        let ghost t = v@.take(i + 1);
        assert(t.drop_last() =~= v@.take(i as int));
        assert(t.last() == c);
        if is_whitespace(c) {
        } else if i >= 1 && !is_whitespace(v[i - 1]) {
            proof {
                assert(t[t.len() - 2] == v@[i - 1]);
                assert(v@.take(i as int).last() == v@[i - 1]);
                lemma_words_nonempty(v@.take(i as int));
            }
            let ghost before = views(r@);
            let mut last = r.pop().unwrap();
            push_char(&mut last, c);
            r.push(last);
            assert(views(r@) =~= before.update(before.len() - 1, before.last().push(c)));
        } else {
            let mut w = String::new();
            push_char(&mut w, c);
            let ghost before = views(r@);
            r.push(w);
            assert(w@ =~= seq![c]);
            assert(views(r@) =~= before.push(seq![c]));
        }
        i = i + 1;
    }
    assert(v@.take(i as int) =~= v@);
    r
}

/// A row that names a statistic: at least three words (name, type,
/// data), the last a `u64`, which is the statistic's value.
pub open spec fn arc_row(line: Seq<char>) -> Option<(Seq<char>, u64)> {
    let w = words(line);
    if w.len() >= 3 {
        match parse_uint(w.last(), 10, u64::MAX as nat) {
            Ok(n) => Some((w[0], n as u64)),
            Err(_) => None,
        }
    } else {
        None
    }
}

/// The value the last row naming `k` gives it, among `rows`.
pub open spec fn last_value(rows: Seq<Seq<char>>, k: Seq<char>) -> Option<u64>
    decreases rows.len(),
{
    if rows.len() == 0 {
        None
    } else {
        match arc_row(rows.last()) {
            Some((name, v)) if name == k => Some(v),
            _ => last_value(rows.drop_last(), k),
        }
    }
}

/// A statistic's value, 0 where no row names it.
pub open spec fn stat(rows: Seq<Seq<char>>, k: Seq<char>) -> u64 {
    match last_value(rows, k) {
        Some(v) => v,
        None => 0,
    }
}

/// The rows of arcstats text: every line after the two header lines.
pub open spec fn arc_lines(content: Seq<char>) -> Seq<Seq<char>> {
    lines_of(content).skip(2)
}

/// Selected statistics, and every parsed `name → value` pair.
#[derive(Debug, Clone)]
pub struct ArcStats {
    /// Current ARC size in bytes.
    pub size: u64,
    /// ARC target size in bytes.
    pub c: u64,
    /// Hard minimum on `c`.
    pub c_min: u64,
    /// Hard maximum on `c`.
    pub c_max: u64,
    /// Hits since boot.
    pub hits: u64,
    /// Misses since boot.
    pub misses: u64,
    pub demand_data_hits: u64,
    pub demand_data_misses: u64,
    pub demand_metadata_hits: u64,
    pub demand_metadata_misses: u64,
    pub prefetch_data_hits: u64,
    pub prefetch_data_misses: u64,
    pub prefetch_metadata_hits: u64,
    pub prefetch_metadata_misses: u64,
    pub mru_hits: u64,
    pub mfu_hits: u64,
    pub mru_ghost_hits: u64,
    pub mfu_ghost_hits: u64,
    /// L2ARC size in bytes (0 without an L2 device).
    pub l2_size: u64,
    pub l2_hits: u64,
    pub l2_misses: u64,
    /// Compressed and uncompressed bytes held in the ARC.
    pub compressed_size: u64,
    pub uncompressed_size: u64,
    /// Every parsed `name → value` pair, the fields above included.
    pub raw: StrMap<u64>,
}

impl Default for ArcStats {
    /// Every statistic 0 and no raw pairs.
    fn default() -> (r: Self)
        ensures
            r.size == 0 && r.c == 0 && r.c_min == 0 && r.c_max == 0 && r.hits == 0 && r.misses == 0 && r.demand_data_hits == 0 && r.demand_data_misses == 0 && r.demand_metadata_hits == 0 && r.demand_metadata_misses == 0 && r.prefetch_data_hits == 0 && r.prefetch_data_misses == 0 && r.prefetch_metadata_hits == 0 && r.prefetch_metadata_misses == 0 && r.mru_hits == 0 && r.mfu_hits == 0 && r.mru_ghost_hits == 0 && r.mfu_ghost_hits == 0 && r.l2_size == 0 && r.l2_hits == 0 && r.l2_misses == 0 && r.compressed_size == 0 && r.uncompressed_size == 0,
            r.raw@ == Seq::<(Seq<char>, u64)>::empty(),
    {
        ArcStats {
            size: 0,
            c: 0,
            c_min: 0,
            c_max: 0,
            hits: 0,
            misses: 0,
            demand_data_hits: 0,
            demand_data_misses: 0,
            demand_metadata_hits: 0,
            demand_metadata_misses: 0,
            prefetch_data_hits: 0,
            prefetch_data_misses: 0,
            prefetch_metadata_hits: 0,
            prefetch_metadata_misses: 0,
            mru_hits: 0,
            mfu_hits: 0,
            mru_ghost_hits: 0,
            mfu_ghost_hits: 0,
            l2_size: 0,
            l2_hits: 0,
            l2_misses: 0,
            compressed_size: 0,
            uncompressed_size: 0,
            raw: StrMap::new(),
        }
    }
}

/// The statistics read from `rows`: each field is the statistic of its
/// name, and `raw` holds, for every name, the value its last row gives.
pub open spec fn arc_stats_of(s: ArcStats, rows: Seq<Seq<char>>) -> bool {
    &&& keys_increase(s.raw@)
    &&& forall|k: Seq<char>, v: u64| has_entry(s.raw@, k, v) <==> last_value(rows, k) == Some(v)
    &&& s.size == stat(rows, "size"@)
    &&& s.c == stat(rows, "c"@)
    &&& s.c_min == stat(rows, "c_min"@)
    &&& s.c_max == stat(rows, "c_max"@)
    &&& s.hits == stat(rows, "hits"@)
    &&& s.misses == stat(rows, "misses"@)
    &&& s.demand_data_hits == stat(rows, "demand_data_hits"@)
    &&& s.demand_data_misses == stat(rows, "demand_data_misses"@)
    &&& s.demand_metadata_hits == stat(rows, "demand_metadata_hits"@)
    &&& s.demand_metadata_misses == stat(rows, "demand_metadata_misses"@)
    &&& s.prefetch_data_hits == stat(rows, "prefetch_data_hits"@)
    &&& s.prefetch_data_misses == stat(rows, "prefetch_data_misses"@)
    &&& s.prefetch_metadata_hits == stat(rows, "prefetch_metadata_hits"@)
    &&& s.prefetch_metadata_misses == stat(rows, "prefetch_metadata_misses"@)
    &&& s.mru_hits == stat(rows, "mru_hits"@)
    &&& s.mfu_hits == stat(rows, "mfu_hits"@)
    &&& s.mru_ghost_hits == stat(rows, "mru_ghost_hits"@)
    &&& s.mfu_ghost_hits == stat(rows, "mfu_ghost_hits"@)
    &&& s.l2_size == stat(rows, "l2_size"@)
    &&& s.l2_hits == stat(rows, "l2_hits"@)
    &&& s.l2_misses == stat(rows, "l2_misses"@)
    &&& s.compressed_size == stat(rows, "compressed_size"@)
    &&& s.uncompressed_size == stat(rows, "uncompressed_size"@)
}

/// Reads one row: its name and value, where it names a statistic.
fn read_row(line: &String) -> (r: Option<(String, u64)>)
    ensures
        match arc_row(line@) {
            Some((k, v)) => r matches Some((name, n)) && name@ == k && n == v,
            None => r is None,
        },
{
    let w = split_whitespace(line.as_str());
    if w.len() < 3 {
        return None;
    }
    let last = w.len() - 1;
    assert(views(w@)[last as int] == w@[last as int]@);
    assert(views(w@)[0] == w@[0]@);
    match parse_u64(w[last].as_str()) {
        Some(n) => Some((w[0].clone(), n)),
        None => None,
    }
}

/// A statistic from the raw map, 0 where it is absent.
fn stat_of(raw: &StrMap<u64>, k: &str, Ghost(rows): Ghost<Seq<Seq<char>>>) -> (r: u64)
    requires
        forall|k2: Seq<char>, v: u64| has_entry(raw@, k2, v) <==> last_value(rows, k2) == Some(v),
    ensures
        r == stat(rows, k@),
{
    match raw.get(k) {
        Some(v) => *v,
        None => {
            proof {
                if last_value(rows, k@) is Some {
                    let v = last_value(rows, k@)->0;
                    assert(has_entry(raw@, k@, v));
                    let j = choose|j: int| 0 <= j < raw@.len() && #[trigger] raw@[j] == (k@, v);
                    assert(raw@[j].0 == k@);
                }
            }
            0
        },
    }
}

/// Reads arcstats text. Rows that do not name a statistic are passed
/// over; only a missing header line is an error.
pub fn parse_arcstats(content: &str) -> (r: Result<ArcStats, ArcStatsError>)
    ensures
        lines_of(content@).len() < 2 ==> (r matches Err(ArcStatsError::Header { got }) && got == (
        if lines_of(content@).len() >= 1 {
            1usize
        } else {
            0usize
        })),
        lines_of(content@).len() >= 2 ==> (r matches Ok(s) && arc_stats_of(s, arc_lines(content@))),
{
    let ls = lines(content);
    if ls.len() < 2 {
        let got: usize = if ls.len() >= 1 {
            1
        } else {
            0
        };
        return Err(ArcStatsError::Header { got });
    }
    let ghost rows = views(ls@).skip(2);
    let mut raw: StrMap<u64> = StrMap::new();
    let mut i: usize = 2;
    assert(rows.take(0) =~= Seq::<Seq<char>>::empty());
    while i < ls.len()
        invariant
            2 <= i <= ls@.len(),
            rows == views(ls@).skip(2),
            keys_increase(raw@),
            forall|k: Seq<char>, v: u64|
                has_entry(raw@, k, v) <==> last_value(rows.take(i - 2), k) == Some(v),
        decreases ls@.len() - i,
    {
        let ghost pre = rows.take(i - 2);
        let ghost now = rows.take(i - 1);
        assert(now.drop_last() =~= pre);
        assert(now.last() == ls@[i as int]@);
        match read_row(&ls[i]) {
            Some((name, n)) => {
                let ghost nm = name@;
                let ghost old_raw = raw@;
                raw.insert(name, n);
                proof {
                    assert(arc_row(now.last()) == Some((nm, n)));
                    assert forall|k: Seq<char>, v: u64| has_entry(raw@, k, v) <==> last_value(now, k) == Some(v) by {
                        if k != nm {
                            assert(has_entry(raw@, k, v) == has_entry(old_raw, k, v));
                            assert(last_value(now, k) == last_value(pre, k));
                        } else {
                            assert(last_value(now, k) == Some(n));
                            if has_entry(raw@, k, v) && v != n {
                                let a = choose|a: int| 0 <= a < raw@.len() && #[trigger] raw@[a] == (k, v);
                                let b = choose|b: int| 0 <= b < raw@.len() && #[trigger] raw@[b] == (nm, n);
                                assert(raw@[a].0 == k);
                                assert(raw@[b].0 == k);
                                crate::text::lemma_lex_irreflexive(k);
                                if a < b {
                                    assert(crate::text::lex_lt(raw@[a].0, raw@[b].0));
                                } else if b < a {
                                    assert(crate::text::lex_lt(raw@[b].0, raw@[a].0));
                                }
                                assert(false);
                            }
                        }
                    }
                }
            },
            None => {
                proof {
                    assert forall|k: Seq<char>, v: u64| has_entry(raw@, k, v) <==> last_value(now, k) == Some(v) by {
                        assert(last_value(now, k) == last_value(pre, k));
                    }
                }
            },
        }
        i = i + 1;
    }
    assert(rows.take(i - 2) =~= rows);
    let g = Ghost(rows);
    proof {
        reveal_strlit("size");
    }
    Ok(ArcStats {
        size: stat_of(&raw, "size", g),
        c: stat_of(&raw, "c", g),
        c_min: stat_of(&raw, "c_min", g),
        c_max: stat_of(&raw, "c_max", g),
        hits: stat_of(&raw, "hits", g),
        misses: stat_of(&raw, "misses", g),
        demand_data_hits: stat_of(&raw, "demand_data_hits", g),
        demand_data_misses: stat_of(&raw, "demand_data_misses", g),
        demand_metadata_hits: stat_of(&raw, "demand_metadata_hits", g),
        demand_metadata_misses: stat_of(&raw, "demand_metadata_misses", g),
        prefetch_data_hits: stat_of(&raw, "prefetch_data_hits", g),
        prefetch_data_misses: stat_of(&raw, "prefetch_data_misses", g),
        prefetch_metadata_hits: stat_of(&raw, "prefetch_metadata_hits", g),
        prefetch_metadata_misses: stat_of(&raw, "prefetch_metadata_misses", g),
        mru_hits: stat_of(&raw, "mru_hits", g),
        mfu_hits: stat_of(&raw, "mfu_hits", g),
        mru_ghost_hits: stat_of(&raw, "mru_ghost_hits", g),
        mfu_ghost_hits: stat_of(&raw, "mfu_ghost_hits", g),
        l2_size: stat_of(&raw, "l2_size", g),
        l2_hits: stat_of(&raw, "l2_hits", g),
        l2_misses: stat_of(&raw, "l2_misses", g),
        compressed_size: stat_of(&raw, "compressed_size", g),
        uncompressed_size: stat_of(&raw, "uncompressed_size", g),
        raw,
    })
}

} // verus!
