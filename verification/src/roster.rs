//! Pure roster computations over configuration-sheet columns: the
//! name-shortening map and the collections derived from it.
//!
//! The surrounding system reads the columns from a remote spreadsheet
//! and stores the results in its own caches; this module holds only
//! the computations between those two edges, on plain string columns.

use vstd::prelude::*;

use crate::num::all_digits;
use crate::num::digits_val;
use crate::num::is_digit;
use crate::num::pow10;

verus! {

/// One entry of the name-shortening map.
#[derive(Clone, Debug)]
pub struct NamePair {
    /// A member's full name.
    pub key: String,
    /// The shortened name that stands for it.
    pub value: String,
}

/// The spec-level entries of a name-shortening map.
pub open spec fn entry_views(v: Seq<NamePair>) -> Seq<(Seq<char>, Seq<char>)> {
    v.map_values(|p: NamePair| (p.key@, p.value@))
}

/// The map that a sequence of entries stands for when later entries
/// overwrite earlier ones.
pub open spec fn assoc_map(entries: Seq<(Seq<char>, Seq<char>)>) -> Map<Seq<char>, Seq<char>>
    decreases entries.len(),
{
    if entries.len() == 0 {
        Map::empty()
    } else {
        assoc_map(entries.drop_last()).insert(entries.last().0, entries.last().1)
    }
}

/// A vector of entries faithfully represents a map: keys are unique,
/// every entry is in the map, and every key of the map has an entry.
pub open spec fn represents(v: Seq<NamePair>, m: Map<Seq<char>, Seq<char>>) -> bool {
    &&& forall|i: int, j: int|
        0 <= i < j < v.len() ==> #[trigger] v[i].key@ != #[trigger] v[j].key@
    &&& forall|i: int|
        0 <= i < v.len() ==> m.contains_key(#[trigger] v[i].key@) && m[v[i].key@] == v[i].value@
    &&& forall|k: Seq<char>|
        #[trigger] m.contains_key(k) ==> exists|i: int| 0 <= i < v.len() && #[trigger] v[i].key@
            == k
}

/// Insert or overwrite one entry, keeping the representation exact.
fn upsert(
    v: &mut Vec<NamePair>,
    key: String,
    value: String,
    Ghost(m): Ghost<Map<Seq<char>, Seq<char>>>,
)
    requires
        represents(old(v)@, m),
    ensures
        represents(final(v)@, m.insert(key@, value@)),
{
    let mut i: usize = 0;
    while i < v.len()
        invariant
            v@ == old(v)@,
            represents(v@, m),
            i <= v@.len(),
            forall|j: int| 0 <= j < i ==> #[trigger] v@[j].key@ != key@,
        decreases v@.len() - i,
    {
        if v[i].key == key {
            v[i] = NamePair { key, value };
            proof {
                let nv = v@;
                let nm = m.insert(key@, value@);
                assert forall|k: Seq<char>| nm.contains_key(k) implies exists|j: int|
                    0 <= j < nv.len() && #[trigger] nv[j].key@ == k by {
                    if k == key@ {
                        assert(nv[i as int].key@ == k);
                    } else {
                        assert(m.contains_key(k));
                        let j = choose|j: int|
                            0 <= j < old(v)@.len() && #[trigger] old(v)@[j].key@ == k;
                        assert(old(v)@[j].key@ == k);
                        assert(j != i);
                        assert(nv[j].key@ == k);
                    }
                }
            }
            return ;
        }
        i = i + 1;
    }
    v.push(NamePair { key, value });
    proof {
        let nv = v@;
        let nm = m.insert(key@, value@);
        assert forall|k: Seq<char>| nm.contains_key(k) implies exists|j: int|
            0 <= j < nv.len() && #[trigger] nv[j].key@ == k by {
            if k == key@ {
                assert(nv[nv.len() - 1].key@ == k);
            } else {
                assert(m.contains_key(k));
                let j = choose|j: int|
                    0 <= j < old(v)@.len() && #[trigger] old(v)@[j].key@ == k;
                assert(old(v)@[j].key@ == k);
                assert(nv[j].key@ == k);
            }
        }
    }
}

/// The name/short-name pairs of two columns, truncated to the shorter
/// column, keeping only the rows where both cells are nonempty.
pub open spec fn filtered_pairs(names: Seq<Seq<char>>, shorts: Seq<Seq<char>>) -> Seq<
    (Seq<char>, Seq<char>),
>
    decreases names.len() + shorts.len(),
{
    if names.len() > shorts.len() {
        filtered_pairs(names.take(shorts.len() as int), shorts)
    } else if shorts.len() > names.len() {
        filtered_pairs(names, shorts.take(names.len() as int))
    } else if names.len() == 0 {
        Seq::empty()
    } else if names.last().len() > 0 && shorts.last().len() > 0 {
        filtered_pairs(names.drop_last(), shorts.drop_last()).push((names.last(), shorts.last()))
    } else {
        filtered_pairs(names.drop_last(), shorts.drop_last())
    }
}

/// Build the name-shortening map from the full-name and short-name
/// columns: rows with an empty cell are dropped, and a repeated full
/// name keeps its last short name.
pub fn shortened_names(names: &Vec<String>, shorts: &Vec<String>) -> (r: Vec<NamePair>)
    ensures
        represents(
            r@,
            assoc_map(
                filtered_pairs(
                    names@.map_values(|s: String| s@),
                    shorts@.map_values(|s: String| s@),
                ),
            ),
        ),
{
    let ghost nsv = names@.map_values(|s: String| s@);
    let ghost ssv = shorts@.map_values(|s: String| s@);
    let n = if names.len() < shorts.len() {
        names.len()
    } else {
        shorts.len()
    };
    let mut r: Vec<NamePair> = Vec::new();
    let mut i: usize = 0;
    proof {
        assert(filtered_pairs(nsv.take(0), ssv.take(0)) =~= Seq::empty());
    }
    while i < n
        invariant
            n <= names@.len(),
            n <= shorts@.len(),
            n == vstd::math::min(names@.len() as int, shorts@.len() as int),
            nsv == names@.map_values(|s: String| s@),
            ssv == shorts@.map_values(|s: String| s@),
            i <= n,
            represents(r@, assoc_map(filtered_pairs(nsv.take(i as int), ssv.take(i as int)))),
        decreases n - i,
    {
        let ghost prev = filtered_pairs(nsv.take(i as int), ssv.take(i as int));
        let name = &names[i];
        let short = &shorts[i];
        if !name.as_str().is_empty() && !short.as_str().is_empty() {
            upsert(
                &mut r,
                name.clone(),
                short.clone(),
                Ghost(assoc_map(prev)),
            );
        }
        proof {
            let a = nsv.take(i + 1);
            let b = ssv.take(i + 1);
            assert(a.drop_last() =~= nsv.take(i as int));
            assert(b.drop_last() =~= ssv.take(i as int));
            assert(a.last() == nsv[i as int]);
            assert(b.last() == ssv[i as int]);
            if name@.len() > 0 && short@.len() > 0 {
                assert(filtered_pairs(a, b) =~= prev.push((nsv[i as int], ssv[i as int])));
                assert(filtered_pairs(a, b).drop_last() =~= prev);
                assert(assoc_map(filtered_pairs(a, b)) == assoc_map(prev).insert(
                    nsv[i as int],
                    ssv[i as int],
                ));
            } else {
                assert(filtered_pairs(a, b) =~= prev);
            }
        }
        i = i + 1;
    }
    proof {
        if names@.len() > shorts@.len() {
            assert(nsv.take(n as int) =~= nsv.take(ssv.len() as int));
            assert(ssv.take(n as int) =~= ssv);
            assert(filtered_pairs(nsv, ssv) == filtered_pairs(nsv.take(ssv.len() as int), ssv));
        } else if shorts@.len() > names@.len() {
            assert(nsv.take(n as int) =~= nsv);
            assert(ssv.take(n as int) =~= ssv.take(nsv.len() as int));
            assert(filtered_pairs(nsv, ssv) == filtered_pairs(nsv, ssv.take(nsv.len() as int)));
        } else {
            assert(nsv.take(n as int) =~= nsv);
            assert(ssv.take(n as int) =~= ssv);
        }
    }
    r
}

/// The short name an entry list assigns to a name: the first entry
/// whose key matches, or the name itself when none does.
pub open spec fn shorten_spec(entries: Seq<(Seq<char>, Seq<char>)>, name: Seq<char>) -> Seq<char>
    decreases entries.len(),
{
    if entries.len() == 0 {
        name
    } else if entries[0].0 == name {
        entries[0].1
    } else {
        shorten_spec(entries.skip(1), name)
    }
}

/// Replace a name by its short form when the map has one.
pub fn shorten(map: &Vec<NamePair>, name: &String) -> (r: String)
    ensures
        r@ == shorten_spec(entry_views(map@), name@),
{
    let mut i: usize = 0;
    proof {
        assert(entry_views(map@).skip(0) =~= entry_views(map@));
    }
    while i < map.len()
        invariant
            i <= map@.len(),
            shorten_spec(entry_views(map@), name@) == shorten_spec(
                entry_views(map@).skip(i as int),
                name@,
            ),
        decreases map@.len() - i,
    {
        if map[i].key == *name {
            proof {
                assert(entry_views(map@).skip(i as int)[0] == (map@[i as int].key@, map@[
                    i as int].value@));
            }
            return map[i].value.clone();
        }
        proof {
            assert(entry_views(map@).skip(i as int).skip(1) =~= entry_views(map@).skip(i + 1));
        }
        i = i + 1;
    }
    proof {
        assert(entry_views(map@).skip(i as int).len() == 0);
    }
    name.clone()
}

/// The nonempty cells of a column, each replaced by its short form.
pub open spec fn mapped_cells_spec(
    cells: Seq<Seq<char>>,
    entries: Seq<(Seq<char>, Seq<char>)>,
) -> Seq<Seq<char>>
    decreases cells.len(),
{
    if cells.len() == 0 {
        Seq::empty()
    } else if cells.last().len() > 0 {
        mapped_cells_spec(cells.drop_last(), entries).push(shorten_spec(entries, cells.last()))
    } else {
        mapped_cells_spec(cells.drop_last(), entries)
    }
}

/// Collect a boat column: every nonempty cell, shortened. The caller
/// folds the result into its set of boat names.
pub fn mapped_boat_cells(cells: &Vec<String>, map: &Vec<NamePair>) -> (r: Vec<String>)
    ensures
        r@.map_values(|s: String| s@) == mapped_cells_spec(
            cells@.map_values(|s: String| s@),
            entry_views(map@),
        ),
{
    let ghost cv = cells@.map_values(|s: String| s@);
    let mut r: Vec<String> = Vec::new();
    let mut i: usize = 0;
    proof {
        assert(mapped_cells_spec(cv.take(0), entry_views(map@)) =~= Seq::empty());
        assert(r@.map_values(|s: String| s@) =~= Seq::<Seq<char>>::empty());
    }
    while i < cells.len()
        invariant
            cv == cells@.map_values(|s: String| s@),
            i <= cells@.len(),
            r@.map_values(|s: String| s@) == mapped_cells_spec(
                cv.take(i as int),
                entry_views(map@),
            ),
        decreases cells@.len() - i,
    {
        let cell = &cells[i];
        if !cell.as_str().is_empty() {
            let mapped = shorten(map, cell);
            r.push(mapped);
        }
        proof {
            let a = cv.take(i + 1);
            assert(a.drop_last() =~= cv.take(i as int));
            assert(a.last() == cv[i as int]);
            assert(r@.map_values(|s: String| s@) =~= mapped_cells_spec(a, entry_views(map@)));
        }
        i = i + 1;
    }
    proof {
        assert(cv.take(cells@.len() as int) =~= cv);
    }
    r
}

/// Whether a cell parses as a small count, in the machine-integer
/// grammar: an optional plus sign, then one or more digits — leading
/// zeros allowed — whose value is at most two hundred and fifty-five.
pub open spec fn small_count_of(s: Seq<char>) -> Option<u64> {
    let t = if s.len() > 0 && s[0] == '+' {
        s.subrange(1, s.len() as int)
    } else {
        s
    };
    if t.len() >= 1 && all_digits(t) && digits_val(t) <= 255 {
        Some(digits_val(t) as u64)
    } else {
        None
    }
}

/// Parse a cell as a small count.
fn parse_small_count(s: &String) -> (r: Option<u64>)
    ensures
        r == small_count_of(s@),
{
    let cell = s.as_str();
    let len = cell.unicode_len();
    let plus = len > 0 && cell.get_char(0) == '+';
    let start: usize = if plus {
        1
    } else {
        0
    };
    let ghost t = s@.subrange(start as int, len as int);
    proof {
        if !plus {
            assert(t =~= s@);
        }
    }
    if start == len {
        return None;
    }
    let mut acc: u64 = 0;
    let mut i: usize = start;
    while i < len
        invariant
            cell@ == s@,
            len == s@.len(),
            start <= i <= len,
            start <= 1,
            start < len,
            t == s@.subrange(start as int, len as int),
            t == (if s@.len() > 0 && s@[0] == '+' {
                s@.subrange(1, s@.len() as int)
            } else {
                s@
            }),
            forall|j: int| 0 <= j < i - start ==> is_digit(#[trigger] t[j]),
            acc == digits_val(t.subrange(0, i - start)),
            acc <= 255,
        decreases len - i,
    {
        let c = cell.get_char(i);
        let d = match crate::num::digit_value(c) {
            Some(d) => d,
            None => {
                proof {
                    assert(t[(i - start) as int] == s@[i as int]);
                    assert(!is_digit(t[(i - start) as int]));
                }
                return None;
            },
        };
        let ghost prefix = t.subrange(0, i - start);
        proof {
            crate::num::lemma_digits_val_push(prefix, c);
            assert(t.subrange(0, i - start + 1) =~= prefix.push(t[(i - start) as int]));
        }
        let next = acc * 10 + d;
        if next > 255 {
            proof {
                let done = t.subrange(0, i - start + 1);
                let rest = t.subrange(i - start + 1, t.len() as int);
                assert(t =~= done + rest);
                crate::num::lemma_digits_val_concat(done, rest);
                crate::num::lemma_digits_val_nonneg(rest);
                crate::num::lemma_pow10_positive(rest.len());
                assert(digits_val(done) * pow10(rest.len()) >= digits_val(done))
                    by (nonlinear_arith)
                    requires
                        digits_val(done) >= 0,
                        pow10(rest.len()) >= 1,
                ;
            }
            return None;
        }
        acc = next;
        i = i + 1;
    }
    proof {
        assert(t.subrange(0, t.len() as int) =~= t);
    }
    Some(acc)
}

/// One member's certification status.
#[derive(Clone, Debug)]
pub struct CertEntry {
    /// The member's (shortened) name.
    pub name: String,
    /// Whether the member is certified: any nonzero count.
    pub certified: bool,
}

/// The certification entries of the name and certification columns,
/// truncated to the shorter: rows with a nonempty name whose
/// certification cell parses, keyed by the shortened name.
pub open spec fn cert_entries_spec(
    names: Seq<Seq<char>>,
    certs: Seq<Seq<char>>,
    entries: Seq<(Seq<char>, Seq<char>)>,
) -> Seq<(Seq<char>, bool)>
    decreases names.len() + certs.len(),
{
    if names.len() > certs.len() {
        cert_entries_spec(names.take(certs.len() as int), certs, entries)
    } else if certs.len() > names.len() {
        cert_entries_spec(names, certs.take(names.len() as int), entries)
    } else if names.len() == 0 {
        Seq::empty()
    } else {
        let rest = cert_entries_spec(names.drop_last(), certs.drop_last(), entries);
        if names.last().len() > 0 && small_count_of(certs.last()) is Some {
            rest.push((shorten_spec(entries, names.last()), small_count_of(certs.last())->Some_0 != 0))
        } else {
            rest
        }
    }
}

/// Collect the certification entries. The caller folds them into its
/// name-to-status map, where a repeated name keeps its last status.
pub fn names_certs(names: &Vec<String>, certs: &Vec<String>, map: &Vec<NamePair>) -> (r: Vec<
    CertEntry,
>)
    ensures
        r@.map_values(|e: CertEntry| (e.name@, e.certified)) == cert_entries_spec(
            names@.map_values(|s: String| s@),
            certs@.map_values(|s: String| s@),
            entry_views(map@),
        ),
{
    let ghost nv = names@.map_values(|s: String| s@);
    let ghost cv = certs@.map_values(|s: String| s@);
    let n = if names.len() < certs.len() {
        names.len()
    } else {
        certs.len()
    };
    let mut r: Vec<CertEntry> = Vec::new();
    let mut i: usize = 0;
    proof {
        assert(cert_entries_spec(nv.take(0), cv.take(0), entry_views(map@)) =~= Seq::empty());
        assert(r@.map_values(|e: CertEntry| (e.name@, e.certified)) =~= Seq::<(Seq<char>,
        bool)>::empty());
    }
    while i < n
        invariant
            n <= names@.len(),
            n <= certs@.len(),
            n == vstd::math::min(names@.len() as int, certs@.len() as int),
            nv == names@.map_values(|s: String| s@),
            cv == certs@.map_values(|s: String| s@),
            i <= n,
            r@.map_values(|e: CertEntry| (e.name@, e.certified)) == cert_entries_spec(
                nv.take(i as int),
                cv.take(i as int),
                entry_views(map@),
            ),
        decreases n - i,
    {
        let name = &names[i];
        if !name.as_str().is_empty() {
            match parse_small_count(&certs[i]) {
                Some(c) => {
                    let short = shorten(map, name);
                    r.push(CertEntry { name: short, certified: c != 0 });
                },
                None => {},
            }
        }
        proof {
            let a = nv.take(i + 1);
            let b = cv.take(i + 1);
            assert(a.drop_last() =~= nv.take(i as int));
            assert(b.drop_last() =~= cv.take(i as int));
            assert(a.last() == nv[i as int]);
            assert(b.last() == cv[i as int]);
            assert(r@.map_values(|e: CertEntry| (e.name@, e.certified)) =~= cert_entries_spec(
                a,
                b,
                entry_views(map@),
            ));
        }
        i = i + 1;
    }
    proof {
        if names@.len() > certs@.len() {
            assert(nv.take(n as int) =~= nv.take(cv.len() as int));
            assert(cv.take(n as int) =~= cv);
        } else if certs@.len() > names@.len() {
            assert(nv.take(n as int) =~= nv);
            assert(cv.take(n as int) =~= cv.take(nv.len() as int));
        } else {
            assert(nv.take(n as int) =~= nv);
            assert(cv.take(n as int) =~= cv);
        }
    }
    r
}

/// One member's boat assignment.
#[derive(Clone, Debug)]
pub struct BoatAllocation {
    /// The member's (shortened) name.
    pub name: String,
    /// The primary boat, when the cell is nonempty.
    pub primary: Option<String>,
    /// The alternate boat, when the cell is nonempty.
    pub alternate: Option<String>,
}

/// An empty boat cell stands for no assignment.
pub open spec fn boat_cell(s: Seq<char>) -> Option<Seq<char>> {
    if s.len() > 0 {
        Some(s)
    } else {
        None
    }
}

/// The first `k` rows of the boat-allocation table: rows with a
/// nonempty name, keyed by the shortened name, with each boat cell
/// read as an optional assignment.
pub open spec fn alloc_prefix(
    names: Seq<Seq<char>>,
    pri: Seq<Seq<char>>,
    alt: Seq<Seq<char>>,
    entries: Seq<(Seq<char>, Seq<char>)>,
    k: int,
) -> Seq<(Seq<char>, Option<Seq<char>>, Option<Seq<char>>)>
    decreases k,
{
    if k <= 0 {
        Seq::empty()
    } else {
        let rest = alloc_prefix(names, pri, alt, entries, k - 1);
        if names[k - 1].len() > 0 {
            rest.push(
                (shorten_spec(entries, names[k - 1]), boat_cell(pri[k - 1]), boat_cell(alt[k - 1])),
            )
        } else {
            rest
        }
    }
}

/// Collect the boat allocations of the name and boat columns,
/// truncated to the shortest. The caller folds them into its
/// name-to-boats map, where a repeated name keeps its last row.
pub fn boat_allocations(
    names: &Vec<String>,
    primary: &Vec<String>,
    alternate: &Vec<String>,
    map: &Vec<NamePair>,
) -> (r: Vec<BoatAllocation>)
    ensures
        r@.map_values(
            |e: BoatAllocation|
                (
                    e.name@,
                    match e.primary {
                        Some(s) => Some(s@),
                        None => None,
                    },
                    match e.alternate {
                        Some(s) => Some(s@),
                        None => None,
                    },
                ),
        ) == alloc_prefix(
            names@.map_values(|s: String| s@),
            primary@.map_values(|s: String| s@),
            alternate@.map_values(|s: String| s@),
            entry_views(map@),
            vstd::math::min(
                names@.len() as int,
                vstd::math::min(primary@.len() as int, alternate@.len() as int),
            ),
        ),
{
    let ghost nv = names@.map_values(|s: String| s@);
    let ghost pv = primary@.map_values(|s: String| s@);
    let ghost av = alternate@.map_values(|s: String| s@);
    let ghost to_view = |e: BoatAllocation|
        (
            e.name@,
            match e.primary {
                Some(s) => Some(s@),
                None => None,
            },
            match e.alternate {
                Some(s) => Some(s@),
                None => None,
            },
        );
    let mut n = names.len();
    if primary.len() < n {
        n = primary.len();
    }
    if alternate.len() < n {
        n = alternate.len();
    }
    let mut r: Vec<BoatAllocation> = Vec::new();
    let mut i: usize = 0;
    proof {
        assert(r@.map_values(to_view) =~= alloc_prefix(nv, pv, av, entry_views(map@), 0));
    }
    while i < n
        invariant
            n <= names@.len(),
            n <= primary@.len(),
            n <= alternate@.len(),
            n == vstd::math::min(
                names@.len() as int,
                vstd::math::min(primary@.len() as int, alternate@.len() as int),
            ),
            nv == names@.map_values(|s: String| s@),
            pv == primary@.map_values(|s: String| s@),
            av == alternate@.map_values(|s: String| s@),
            to_view == (|e: BoatAllocation|
                (
                    e.name@,
                    match e.primary {
                        Some(s) => Some(s@),
                        None => None,
                    },
                    match e.alternate {
                        Some(s) => Some(s@),
                        None => None,
                    },
                )),
            i <= n,
            r@.map_values(to_view) == alloc_prefix(nv, pv, av, entry_views(map@), i as int),
        decreases n - i,
    {
        let name = &names[i];
        if !name.as_str().is_empty() {
            let short = shorten(map, name);
            let pri_cell = if primary[i].as_str().is_empty() {
                None
            } else {
                Some(primary[i].clone())
            };
            let alt_cell = if alternate[i].as_str().is_empty() {
                None
            } else {
                Some(alternate[i].clone())
            };
            r.push(BoatAllocation { name: short, primary: pri_cell, alternate: alt_cell });
        }
        proof {
            assert(r@.map_values(to_view) =~= alloc_prefix(
                nv,
                pv,
                av,
                entry_views(map@),
                i + 1,
            ));
        }
        i = i + 1;
    }
    r
}

/// The first `k` rows of the leadership list: the shortened names of
/// the rows whose marker cell parses to exactly one.
pub open spec fn exco_prefix(
    names: Seq<Seq<char>>,
    marks: Seq<Seq<char>>,
    entries: Seq<(Seq<char>, Seq<char>)>,
    k: int,
) -> Seq<Seq<char>>
    decreases k,
{
    if k <= 0 {
        Seq::empty()
    } else {
        let rest = exco_prefix(names, marks, entries, k - 1);
        if small_count_of(marks[k - 1]) == Some(1u64) {
            rest.push(shorten_spec(entries, names[k - 1]))
        } else {
            rest
        }
    }
}

/// Collect the leadership names: the rows whose marker cell parses to
/// exactly one, shortened. The caller folds them into its set.
pub fn exco_names(names: &Vec<String>, marks: &Vec<String>, map: &Vec<NamePair>) -> (r: Vec<
    String,
>)
    ensures
        r@.map_values(|s: String| s@) == exco_prefix(
            names@.map_values(|s: String| s@),
            marks@.map_values(|s: String| s@),
            entry_views(map@),
            vstd::math::min(names@.len() as int, marks@.len() as int),
        ),
{
    let ghost nv = names@.map_values(|s: String| s@);
    let ghost mv = marks@.map_values(|s: String| s@);
    let n = if names.len() < marks.len() {
        names.len()
    } else {
        marks.len()
    };
    let mut r: Vec<String> = Vec::new();
    let mut i: usize = 0;
    proof {
        assert(r@.map_values(|s: String| s@) =~= exco_prefix(nv, mv, entry_views(map@), 0));
    }
    while i < n
        invariant
            n <= names@.len(),
            n <= marks@.len(),
            n == vstd::math::min(names@.len() as int, marks@.len() as int),
            nv == names@.map_values(|s: String| s@),
            mv == marks@.map_values(|s: String| s@),
            i <= n,
            r@.map_values(|s: String| s@) == exco_prefix(nv, mv, entry_views(map@), i as int),
        decreases n - i,
    {
        let is_exco = match parse_small_count(&marks[i]) {
            Some(c) => c == 1,
            None => false,
        };
        if is_exco {
            let short = shorten(map, &names[i]);
            r.push(short);
        }
        proof {
            assert(r@.map_values(|s: String| s@) =~= exco_prefix(nv, mv, entry_views(map@), i + 1));
        }
        i = i + 1;
    }
    r
}

} // verus!
