use vstd::prelude::*;
use vstd::string::*;
use crate::models;
use crate::text;

verus! {

/// How many entries the history list shows when the caller gives no limit.
pub open spec fn default_history_limit() -> i64 {
    500
}

/// The row limit of a history query.
pub fn history_limit(limit: Option<i64>) -> (r: i64)
    ensures
        r == match limit {
            Some(n) => n,
            None => default_history_limit(),
        },
        limit is None ==> r == 500,
{
    match limit {
        Some(n) => n,
        None => 500,
    }
}

/// Characters that `LIKE` treats specially when `\` is its escape character.
pub open spec fn like_special(c: char) -> bool {
    c == '%' || c == '_' || c == '\\'
}

/// How one character of a query is written in a `LIKE` pattern: a special
/// character gets a `\` before it.
pub open spec fn escaped_char(c: char) -> Seq<char> {
    if like_special(c) {
        seq!['\\', c]
    } else {
        seq![c]
    }
}

/// A query written so that `LIKE ... ESCAPE '\'` matches it literally.
pub open spec fn escape_like(q: Seq<char>) -> Seq<char>
    decreases q.len(),
{
    if q.len() == 0 {
        Seq::empty()
    } else {
        escaped_char(q[0]) + escape_like(q.drop_first())
    }
}

/// How `LIKE ... ESCAPE '\'` reads an escaped pattern text: a `\` makes the
/// character after it literal.
pub open spec fn unescape_like(p: Seq<char>) -> Seq<char>
    decreases p.len(),
{
    if p.len() == 0 {
        Seq::empty()
    } else if p[0] == '\\' && p.len() >= 2 {
        seq![p[1]] + unescape_like(p.subrange(2, p.len() as int))
    } else {
        seq![p[0]] + unescape_like(p.drop_first())
    }
}

/// Whether every special character of a pattern text is escaped, so that the
/// text matches only itself.
pub open spec fn all_escaped(p: Seq<char>) -> bool
    decreases p.len(),
{
    if p.len() == 0 {
        true
    } else if p[0] == '\\' {
        p.len() >= 2 && all_escaped(p.subrange(2, p.len() as int))
    } else {
        !like_special(p[0]) && all_escaped(p.drop_first())
    }
}

proof fn lemma_escape_push(s: Seq<char>, c: char)
    ensures
        escape_like(s.push(c)) == escape_like(s) + escaped_char(c),
    decreases s.len(),
{
    if s.len() == 0 {
        assert(s.push(c).drop_first() =~= Seq::<char>::empty());
        assert(escape_like(Seq::<char>::empty()) == Seq::<char>::empty());
        assert(escape_like(s.push(c)) =~= escaped_char(c));
    } else {
        assert(s.push(c).drop_first() =~= s.drop_first().push(c));
        lemma_escape_push(s.drop_first(), c);
        assert(escape_like(s.push(c)) =~= escape_like(s) + escaped_char(c));
    }
}

/// The escaped query is read back by `LIKE` as the query itself, with no
/// wildcard left in it: the pattern `%q%` finds exactly the texts containing `q`.
pub proof fn lemma_escape_reads_back(q: Seq<char>)
    ensures
        unescape_like(escape_like(q)) == q,
        all_escaped(escape_like(q)),
    decreases q.len(),
{
    if q.len() > 0 {
        lemma_escape_reads_back(q.drop_first());
        let e = escape_like(q);
        let rest = escape_like(q.drop_first());
        if like_special(q[0]) {
            assert(e.subrange(2, e.len() as int) =~= rest);
        } else {
            assert(e.drop_first() =~= rest);
        }
        assert(unescape_like(e) =~= q);
    }
}

/// The `LIKE` pattern (with `\` as escape character) that finds `query`
/// anywhere in a text: `%` + the escaped query + `%`.
pub fn like_pattern(query: &str) -> (r: String)
    ensures
        r@ == seq!['%'] + escape_like(query@) + seq!['%'],
{
    proof {
        reveal_strlit("%");
    }
    assert("%"@ =~= seq!['%']);
    let mut p = String::from_str("%");
    let n = query.unicode_len();
    let mut i: usize = 0;
    while i < n
        invariant
            n == query@.len(),
            i <= n,
            p@ == seq!['%'] + escape_like(query@.take(i as int)),
        decreases n - i,
    {
        proof {
            reveal_strlit("\\%");
            reveal_strlit("\\_");
            reveal_strlit("\\\\");
            assert(query@.take(i + 1) =~= query@.take(i as int).push(query@[i as int]));
            lemma_escape_push(query@.take(i as int), query@[i as int]);
        }
        let c = query.get_char(i);
        if c == '%' {
            assert("\\%"@ =~= escaped_char(c));
            p.append("\\%");
        } else if c == '_' {
            assert("\\_"@ =~= escaped_char(c));
            p.append("\\_");
        } else if c == '\\' {
            assert("\\\\"@ =~= escaped_char(c));
            p.append("\\\\");
        } else {
            let one = query.substring_char(i, i + 1);
            assert(one@ =~= escaped_char(c));
            p.append(one);
        }
        i = i + 1;
        assert(p@ =~= seq!['%'] + escape_like(query@.take(i as int)));
    }
    assert(query@.take(n as int) =~= query@);
    p.append("%");
    p
}

/// Result of flipping the stored pinned flag of an entry.
#[derive(Debug, Clone, Copy, PartialEq, Eq, Structural)]
pub struct PinToggle {
    /// The flag to store.
    pub stored: i32,
    /// Whether the entry is pinned afterwards.
    pub pinned: bool,
}

pub open spec fn spec_toggle(stored: i32) -> PinToggle {
    PinToggle {
        stored: models::spec_pin_flag(!(stored != 0)),
        pinned: !(stored != 0),
    }
}

/// Flips a stored pinned flag: any non-zero flag counts as pinned.
pub fn toggle_pin_flag(stored: i32) -> (r: PinToggle)
    ensures
        r == spec_toggle(stored),
{
    let current = stored != 0;
    PinToggle { stored: models::pin_flag(!current), pinned: !current }
}

/// Toggling an unpinned entry (stored flag 0) pins it and stores 1; toggling
/// an entry with any other flag unpins it and stores 0.
pub proof fn lemma_toggle_values(stored: i32)
    ensures
        stored == 0 ==> spec_toggle(stored) == (PinToggle { stored: 1, pinned: true }),
        stored != 0 ==> spec_toggle(stored) == (PinToggle { stored: 0, pinned: false }),
{
}

/// Toggling twice gives back the entry's pin state, and the flag stored the
/// second time is the canonical flag of the state toggled from.
pub proof fn lemma_toggle_twice(stored: i32)
    ensures
        spec_toggle(spec_toggle(stored).stored).pinned == (stored != 0),
        spec_toggle(spec_toggle(stored).stored).stored == models::spec_pin_flag(stored != 0),
        spec_toggle(stored).pinned != (stored != 0),
{
}

/// Seconds in a day.
pub open spec fn seconds_per_day() -> int {
    86400
}

/// Entries created before this time are past the retention period.
pub fn retention_cutoff(now: i64, retention_days: u32) -> (r: i64)
    requires
        now - retention_days * 86400 >= i64::MIN,
    ensures
        r == now - retention_days * seconds_per_day(),
        r == now - retention_days * 86400,
{
    now - (retention_days as i64) * 86400
}

/// The paths that are present in a sequence of optional paths, in order.
pub open spec fn present_paths(rows: Seq<(i64, Option<String>)>) -> Seq<String>
    decreases rows.len(),
{
    if rows.len() == 0 {
        Seq::empty()
    } else {
        let rest = present_paths(rows.drop_last());
        match rows.last().1 {
            Some(p) => rest.push(p),
            None => rest,
        }
    }
}

/// The present paths are exactly the image paths of the rows that have one:
/// each comes from a row, and each row's path is among them.
pub proof fn lemma_present_paths_exact(rows: Seq<(i64, Option<String>)>)
    ensures
        forall|j: int|
            0 <= j < present_paths(rows).len() ==> exists|i: int|
                0 <= i < rows.len() && rows[i].1 == Some(#[trigger] present_paths(rows)[j]),
        forall|i: int|
            0 <= i < rows.len() && (#[trigger] rows[i].1) is Some ==> present_paths(
                rows,
            ).contains(rows[i].1->Some_0),
        present_paths(rows).len() <= rows.len(),
    decreases rows.len(),
{
    if rows.len() > 0 {
        let r0 = rows.drop_last();
        lemma_present_paths_exact(r0);
        let p = present_paths(rows);
        let q = present_paths(r0);
        assert forall|j: int| 0 <= j < p.len() implies exists|i: int|
            0 <= i < rows.len() && rows[i].1 == Some(#[trigger] p[j]) by {
            if j < q.len() {
                assert(p[j] == q[j]);
                let i = choose|i: int| 0 <= i < r0.len() && r0[i].1 == Some(q[j]);
                assert(rows[i] == r0[i]);
            } else {
                assert(rows[rows.len() - 1].1 == Some(p[j]));
            }
        }
        assert forall|i: int| 0 <= i < rows.len() && (#[trigger] rows[i].1) is Some implies p.contains(
            rows[i].1->Some_0,
        ) by {
            if i < r0.len() {
                assert(rows[i] == r0[i]);
                assert(q.contains(r0[i].1->Some_0));
                let k = choose|k: int| 0 <= k < q.len() && q[k] == r0[i].1->Some_0;
                assert(p[k] == q[k]);
            } else {
                assert(p[p.len() - 1] == rows[i].1->Some_0);
            }
        }
    }
}

/// The ids and image files of the oldest unpinned entries chosen for removal.
#[derive(Debug, Clone)]
pub struct OldestBatch {
    pub ids: Vec<i64>,
    pub image_paths: Vec<String>,
}

impl OldestBatch {
    /// Splits the `(id, image path)` rows of the chosen entries into their ids
    /// and the image paths that are present, both in row order.
    pub fn from_rows(rows: &Vec<(i64, Option<String>)>) -> (r: OldestBatch)
        ensures
            r.ids@ == rows@.map_values(|row: (i64, Option<String>)| row.0),
            r.image_paths@ == present_paths(rows@),
    {
        let mut ids: Vec<i64> = Vec::new();
        let mut image_paths: Vec<String> = Vec::new();
        let mut i: usize = 0;
        while i < rows.len()
            invariant
                i <= rows@.len(),
                ids@ == rows@.take(i as int).map_values(|row: (i64, Option<String>)| row.0),
                image_paths@ == present_paths(rows@.take(i as int)),
            decreases rows@.len() - i,
        {
            let ghost before = rows@.take(i as int);
            assert(rows@.take(i + 1).drop_last() =~= before);
            ids.push(rows[i].0);
            match &rows[i].1 {
                Some(p) => image_paths.push(p.clone()),
                None => {},
            }
            i = i + 1;
            assert(ids@ =~= rows@.take(i as int).map_values(|row: (i64, Option<String>)| row.0));
        }
        assert(rows@.take(rows@.len() as int) =~= rows@);
        OldestBatch { ids, image_paths }
    }
}

/// The characters of each string.
pub open spec fn texts(v: Seq<String>) -> Seq<Seq<char>> {
    v.map_values(|x: String| x@)
}

/// The image files among `candidates` that may be deleted: those that no
/// remaining entry refers to (not in `referenced`), each once, in order.
pub open spec fn unreferenced(candidates: Seq<Seq<char>>, referenced: Seq<Seq<char>>) -> Seq<
    Seq<char>,
>
    decreases candidates.len(),
{
    if candidates.len() == 0 {
        Seq::empty()
    } else {
        let rest = unreferenced(candidates.drop_last(), referenced);
        let p = candidates.last();
        if referenced.contains(p) || rest.contains(p) {
            rest
        } else {
            rest.push(p)
        }
    }
}

/// No file that an entry still refers to is chosen for deletion, and every
/// chosen file is one of the candidates.
pub proof fn lemma_unreferenced_sound(candidates: Seq<Seq<char>>, referenced: Seq<Seq<char>>)
    ensures
        forall|i: int|
            0 <= i < unreferenced(candidates, referenced).len() ==> !referenced.contains(
                #[trigger] unreferenced(candidates, referenced)[i],
            ) && candidates.contains(unreferenced(candidates, referenced)[i]),
        unreferenced(candidates, referenced).no_duplicates(),
    decreases candidates.len(),
{
    if candidates.len() > 0 {
        let c0 = candidates.drop_last();
        lemma_unreferenced_sound(c0, referenced);
        let rest = unreferenced(c0, referenced);
        let r = unreferenced(candidates, referenced);
        assert forall|i: int| 0 <= i < r.len() implies !referenced.contains(#[trigger] r[i])
            && candidates.contains(r[i]) by {
            if i < rest.len() {
                assert(r[i] == rest[i]);
                let k = choose|k: int| 0 <= k < c0.len() && c0[k] == rest[i];
                assert(candidates[k] == r[i]);
            } else {
                assert(candidates[candidates.len() - 1] == r[i]);
            }
        }
    }
}

/// Every candidate that no entry refers to is chosen for deletion.
pub proof fn lemma_unreferenced_complete(candidates: Seq<Seq<char>>, referenced: Seq<Seq<char>>)
    ensures
        forall|p: Seq<char>|
            candidates.contains(p) && !referenced.contains(p) ==> #[trigger] unreferenced(
                candidates,
                referenced,
            ).contains(p),
    decreases candidates.len(),
{
    if candidates.len() > 0 {
        let c0 = candidates.drop_last();
        lemma_unreferenced_complete(c0, referenced);
        let rest = unreferenced(c0, referenced);
        let r = unreferenced(candidates, referenced);
        assert forall|p: Seq<char>|
            candidates.contains(p) && !referenced.contains(p) implies #[trigger] r.contains(p) by {
            let k = choose|k: int| 0 <= k < candidates.len() && candidates[k] == p;
            if k < c0.len() {
                assert(c0[k] == p);
                assert(rest.contains(p));
                let j = choose|j: int| 0 <= j < rest.len() && rest[j] == p;
                if !(referenced.contains(candidates.last()) || rest.contains(candidates.last())) {
                    assert(r[j] == p);
                }
            } else {
                if !rest.contains(p) {
                    assert(r[r.len() - 1] == p);
                }
            }
        }
    }
}

/// Whether `v` holds a string with the characters of `s`.
fn holds_text(v: &Vec<String>, s: &String) -> (r: bool)
    ensures
        r == texts(v@).contains(s@),
{
    let mut j: usize = 0;
    while j < v.len()
        invariant
            j <= v@.len(),
            forall|k: int| 0 <= k < j ==> v@[k]@ != s@,
        decreases v@.len() - j,
    {
        if v[j] == *s {
            assert(texts(v@)[j as int] == s@);
            return true;
        }
        j = j + 1;
    }
    assert forall|k: int| 0 <= k < texts(v@).len() implies texts(v@)[k] != s@ by {
        assert(texts(v@)[k] == v@[k]@);
    }
    false
}

/// The image files of `candidates` to delete, given the image paths that the
/// remaining entries refer to: files still referred to (by a pinned entry,
/// say) are kept.
pub fn unreferenced_files(candidates: &Vec<String>, referenced: &Vec<String>) -> (r: Vec<String>)
    ensures
        texts(r@) == unreferenced(texts(candidates@), texts(referenced@)),
{
    let mut r: Vec<String> = Vec::new();
    let mut i: usize = 0;
    while i < candidates.len()
        invariant
            i <= candidates@.len(),
            texts(r@) == unreferenced(texts(candidates@.take(i as int)), texts(referenced@)),
        decreases candidates@.len() - i,
    {
        let ghost before = texts(candidates@.take(i as int));
        assert(texts(candidates@.take(i + 1)).drop_last() =~= before);
        assert(texts(candidates@.take(i + 1)).last() == candidates@[i as int]@);
        let p = &candidates[i];
        if !holds_text(referenced, p) && !holds_text(&r, p) {
            r.push(p.clone());
            assert(texts(r@) =~= unreferenced(before, texts(referenced@)).push(p@));
        }
        i = i + 1;
    }
    assert(candidates@.take(candidates@.len() as int) =~= candidates@);
    r
}

/// Numbered parameters `?1,?2,...,?n`.
pub open spec fn placeholders(n: nat) -> Seq<char>
    decreases n,
{
    if n == 0 {
        Seq::empty()
    } else if n == 1 {
        seq!['?', '1']
    } else {
        placeholders((n - 1) as nat) + seq![',', '?'] + text::decimal(n)
    }
}

pub open spec fn delete_ids_head() -> Seq<char> {
    seq![
        'D', 'E', 'L', 'E', 'T', 'E', ' ', 'F', 'R', 'O', 'M', ' ', 'c', 'l', 'i', 'p', 's', ' ',
        'W', 'H', 'E', 'R', 'E', ' ', 'i', 'd', ' ', 'I', 'N', ' ', '(',
    ]
}

/// The parameter list `?1,...,?n`.
pub fn placeholder_list(n: usize) -> (r: String)
    ensures
        r@ == placeholders(n as nat),
{
    let mut r = String::new();
    if n == 0 {
        return r;
    }
    proof {
        reveal_strlit("?1");
        reveal_strlit(",?");
    }
    assert("?1"@ =~= placeholders(1));
    r.append("?1");
    let mut i: usize = 1;
    while i < n
        invariant
            1 <= i <= n,
            r@ == placeholders(i as nat),
        decreases n - i,
    {
        i = i + 1;
        let d = text::decimal_string(i as u64);
        proof {
            reveal_strlit(",?");
        }
        assert(",?"@ =~= seq![',', '?']);
        r.append(",?");
        r.append(d.as_str());
        assert(r@ =~= placeholders(i as nat));
    }
    r
}

/// The statement that removes the `n` entries whose ids are bound to its
/// parameters: `DELETE FROM clips WHERE id IN (?1,...,?n)`.
pub fn delete_ids_statement(n: usize) -> (r: String)
    ensures
        r@ == delete_ids_head() + placeholders(n as nat) + seq![')'],
{
    proof {
        reveal_strlit("DELETE FROM clips WHERE id IN (");
        reveal_strlit(")");
    }
    assert("DELETE FROM clips WHERE id IN ("@ =~= delete_ids_head());
    assert(")"@ =~= seq![')']);
    let mut r = String::from_str("DELETE FROM clips WHERE id IN (");
    let p = placeholder_list(n);
    r.append(p.as_str());
    r.append(")");
    r
}

} // verus!
