//! The local segment store: parsing a segment file name back to its
//! numeric index, and ordering a directory listing by that index — a
//! numeric order, never the lexicographic order of the names.

use vstd::prelude::*;
use crate::digits::{dec_rep, dec_val, is_digit, lemma_dec_val_prefix, lemma_dec_val_step};

verus! {

/// Why a directory listing is rejected.
#[derive(Clone, Copy, Debug, PartialEq, Eq, Structural)]
pub enum StoreError {
    /// A file name's stem does not parse as a non-negative integer
    /// that fits the index type.  Such an entry must abort the
    /// listing: silently dropping it would corrupt playback order.
    MalformedEntry,
}

/// The position of the first `'.'` in `s`, or the length of `s` if
/// there is none.
pub open spec fn dot_pos(s: Seq<char>) -> int
    decreases s.len(),
{
    if s.len() == 0 {
        0
    } else if s[0] == '.' {
        0
    } else {
        1 + dot_pos(s.drop_first())
    }
}

/// `dot_pos` is the first `'.'`: nothing before it is a dot, and the
/// character there (if any) is one.
pub proof fn lemma_dot_pos(s: Seq<char>)
    ensures
        0 <= dot_pos(s) <= s.len(),
        forall|j: int| 0 <= j < dot_pos(s) ==> s[j] != '.',
        dot_pos(s) < s.len() ==> s[dot_pos(s)] == '.',
    decreases s.len(),
{
    if s.len() == 0 {
    } else if s[0] == '.' {
    } else {
        lemma_dot_pos(s.drop_first());
        assert forall|j: int| 0 <= j < dot_pos(s) implies s[j] != '.' by {
            if j > 0 {
                assert(s.drop_first()[j - 1] == s[j]);
            }
        }
        if dot_pos(s) < s.len() {
            assert(s.drop_first()[dot_pos(s) - 1] == s[dot_pos(s)]);
        }
    }
}

/// A position that carries the first `'.'` is `dot_pos`.
pub proof fn lemma_dot_pos_unique(s: Seq<char>, p: int)
    requires
        0 <= p < s.len(),
        s[p] == '.',
        forall|j: int| 0 <= j < p ==> s[j] != '.',
    ensures
        dot_pos(s) == p,
{
    lemma_dot_pos(s);
}

/// The stem of a file name: everything before the first `'.'`, or the
/// whole name if it has none.
pub open spec fn stem_of(s: Seq<char>) -> Seq<char> {
    s.take(dot_pos(s))
}

/// Whether a file name belongs in the segment store: its stem is a
/// non-empty run of decimal digits whose value fits a `u32` index.
pub open spec fn is_index_name(s: Seq<char>) -> bool {
    &&& stem_of(s).len() > 0
    &&& forall|j: int| 0 <= j < stem_of(s).len() ==> is_digit(#[trigger] stem_of(s)[j])
    &&& dec_val(stem_of(s)) <= u32::MAX
}

/// Parse the numeric stem of a segment file name.  Returns the index
/// exactly when the name is a well-formed store entry; an empty stem,
/// a non-digit in the stem, or a value too large for the index type
/// all return `None`.
pub fn parse_index(name: &str) -> (r: Option<u32>)
    ensures
        match r {
            Some(v) => is_index_name(name@) && v as int == dec_val(stem_of(name@)),
            None => !is_index_name(name@),
        },
{
    let n = name.unicode_len();
    proof {
        lemma_dot_pos(name@);
    }
    let mut p: usize = 0;
    while p < n && name.get_char(p) != '.'
        invariant
            p <= n,
            n == name@.len(),
            forall|j: int| 0 <= j < p ==> name@[j] != '.',
        decreases n - p,
    {
        p = p + 1;
    }
    proof {
        assert(p == dot_pos(name@)) by {
            if (p as int) < dot_pos(name@) {
                assert(name@[p as int] != '.');
            }
            if dot_pos(name@) < p {
                assert(name@[dot_pos(name@)] != '.');
            }
        }
    }
    if p == 0 {
        return None;
    }
    let ghost st = stem_of(name@);
    let mut acc: u64 = 0;
    let mut i: usize = 0;
    proof {
        assert(st.take(0) =~= Seq::<char>::empty());
    }
    while i < p
        invariant
            i <= p,
            0 < p <= n,
            n == name@.len(),
            p == dot_pos(name@),
            st == stem_of(name@),
            st.len() == p,
            forall|j: int| 0 <= j < i ==> is_digit(#[trigger] st[j]),
            acc as int == dec_val(st.take(i as int)),
            acc <= u32::MAX,
        decreases p - i,
    {
        let c = name.get_char(i);
        proof {
            assert(st[i as int] == name@[i as int]);
        }
        let v = c as u32;
        if v < 48 || v > 57 {
            return None;
        }
        proof {
            lemma_dec_val_step(st, i as int);
        }
        let acc2 = acc * 10 + (v - 48) as u64;
        if acc2 > 0xFFFF_FFFF {
            proof {
                if is_index_name(name@) {
                    lemma_dec_val_prefix(st, i + 1);
                }
            }
            return None;
        }
        acc = acc2;
        i = i + 1;
    }
    proof {
        assert(st.take(p as int) =~= st);
    }
    Some(acc as u32)
}

/// The store recovers what the acquisition loop saved: a file named
/// by writing index `n` in decimal and appending the `.ts` extension —
/// the name under which a saved segment is stored — is a well-formed
/// store entry, and parsing it yields `n` again.
pub proof fn lemma_segment_name_round_trip(n: nat)
    requires
        n <= u32::MAX,
    ensures
        is_index_name(dec_rep(n) + ".ts"@),
        dec_val(stem_of(dec_rep(n) + ".ts"@)) == n,
{
    reveal_strlit(".ts");
    let name = dec_rep(n) + ".ts"@;
    crate::digits::lemma_dec_rep_digits(n);
    crate::digits::lemma_dec_rep_round_trip(n);
    let dlen = dec_rep(n).len() as int;
    assert(name[dlen] == '.');
    assert forall|j: int| 0 <= j < dlen implies name[j] != '.' by {
        assert(name[j] == dec_rep(n)[j]);
        assert(is_digit(dec_rep(n)[j]));
    }
    lemma_dot_pos_unique(name, dlen);
    assert(stem_of(name) =~= dec_rep(n));
}

/// One record of the local segment store: the parsed index and the
/// file name it was parsed from.
#[derive(Debug)]
pub struct SegmentEntry {
    pub index: u32,
    pub name: String,
}

/// The mathematical content of a store record.
pub ghost struct SegmentId {
    pub index: int,
    pub name: Seq<char>,
}

impl View for SegmentEntry {
    type V = SegmentId;

    open spec fn view(&self) -> SegmentId {
        SegmentId { index: self.index as int, name: self.name@ }
    }
}

/// The record a well-formed file name denotes.
pub open spec fn id_of(s: Seq<char>) -> SegmentId {
    SegmentId { index: dec_val(stem_of(s)), name: s }
}

/// A store record is internally consistent: its name is a well-formed
/// entry and its index is the value of that name's stem.
pub open spec fn wf_entry(e: SegmentEntry) -> bool {
    &&& is_index_name(e.name@)
    &&& e.index as int == dec_val(stem_of(e.name@))
}

/// Entries in ascending numeric index order.
pub open spec fn sorted_by_index(s: Seq<SegmentEntry>) -> bool {
    forall|i: int, j: int| 0 <= i < j < s.len() ==> s[i].index <= s[j].index
}

/// Insert one entry into a vector kept sorted by index.
fn insert_sorted(out: &mut Vec<SegmentEntry>, e: SegmentEntry)
    requires
        sorted_by_index(old(out)@),
    ensures
        sorted_by_index(final(out)@),
        exists|j: int|
            0 <= j <= old(out)@.len() && final(out)@ == #[trigger] old(out)@.insert(j, e),
{
    let ghost prev = out@;
    let mut j: usize = out.len();
    while j > 0 && out[j - 1].index > e.index
        invariant
            j <= out@.len(),
            out@ == prev,
            forall|t: int| j <= t < out@.len() ==> out@[t].index > e.index,
        decreases j,
    {
        j = j - 1;
    }
    proof {
        prev.insert_ensures(j as int, e);
    }
    out.insert(j, e);
    proof {
        assert forall|a: int, b: int| 0 <= a < b < out@.len() implies out@[a].index
            <= out@[b].index by {
            if a < j && b > j {
                assert(out@[a] == prev[a]);
                assert(out@[b] == prev[b - 1]);
            }
        }
    }
}

/// Order a directory listing of the segment store by numeric index.
/// Succeeds exactly when every name is a well-formed store entry; the
/// result then holds one record per name — the same collection of
/// records, sorted ascending by the parsed index.  A single malformed
/// name rejects the whole listing.
pub fn list(names: &Vec<String>) -> (r: Result<Vec<SegmentEntry>, StoreError>)
    ensures
        match r {
            Ok(entries) => {
                &&& forall|i: int| 0 <= i < names@.len() ==> is_index_name(#[trigger] names@[i]@)
                &&& entries@.len() == names@.len()
                &&& forall|k: int| 0 <= k < entries@.len() ==> wf_entry(#[trigger] entries@[k])
                &&& entries@.map_values(|e: SegmentEntry| e@).to_multiset() == names@.map_values(
                    |s: String| id_of(s@),
                ).to_multiset()
                &&& sorted_by_index(entries@)
            },
            Err(err) => {
                &&& err == StoreError::MalformedEntry
                &&& exists|i: int| 0 <= i < names@.len() && !is_index_name(#[trigger] names@[i]@)
            },
        },
{
    let mut entries: Vec<SegmentEntry> = Vec::new();
    let mut i: usize = 0;
    proof {
        assert(names@.take(0).map_values(|s: String| id_of(s@)) =~= Seq::<SegmentId>::empty());
        assert(entries@.map_values(|e: SegmentEntry| e@) =~= Seq::<SegmentId>::empty());
    }
    while i < names.len()
        invariant
            i <= names@.len(),
            forall|j: int| 0 <= j < i ==> is_index_name(#[trigger] names@[j]@),
            entries@.len() == i,
            forall|k: int| 0 <= k < entries@.len() ==> wf_entry(#[trigger] entries@[k]),
            sorted_by_index(entries@),
            entries@.map_values(|e: SegmentEntry| e@).to_multiset() == names@.take(
                i as int,
            ).map_values(|s: String| id_of(s@)).to_multiset(),
        decreases names@.len() - i,
    {
        let name = &names[i];
        match parse_index(name.as_str()) {
            Some(index) => {
                let ghost before = entries@;
                let entry = SegmentEntry { index, name: name.clone() };
                proof {
                    assert(entry@ == id_of(names@[i as int]@));
                }
                insert_sorted(&mut entries, entry);
                proof {
                    let j = choose|j: int|
                        0 <= j <= before.len() && entries@ == #[trigger] before.insert(j, entry);
                    before.insert_ensures(j, entry);
                    assert forall|k: int| 0 <= k < entries@.len() implies wf_entry(
                        #[trigger] entries@[k],
                    ) by {
                        if k < j {
                            assert(entries@[k] == before[k]);
                        } else if k > j {
                            assert(entries@[k] == before[k - 1]);
                        }
                    }
                    assert(entries@.map_values(|e: SegmentEntry| e@) =~= before.map_values(
                        |e: SegmentEntry| e@,
                    ).insert(j, entry@));
                    vstd::seq_lib::to_multiset_insert(
                        before.map_values(|e: SegmentEntry| e@),
                        j,
                        entry@,
                    );
                    assert(names@.take(i + 1) =~= names@.take(i as int).push(names@[i as int]));
                    assert(names@.take(i + 1).map_values(|s: String| id_of(s@)) =~= names@.take(
                        i as int,
                    ).map_values(|s: String| id_of(s@)).push(id_of(names@[i as int]@)));
                    vstd::seq_lib::to_multiset_build(
                        names@.take(i as int).map_values(|s: String| id_of(s@)),
                        id_of(names@[i as int]@),
                    );
                }
                i = i + 1;
            },
            None => {
                return Err(StoreError::MalformedEntry);
            },
        }
    }
    proof {
        assert(names@.take(i as int) =~= names@);
    }
    Ok(entries)
}

} // verus!
