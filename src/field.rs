use vstd::prelude::*;

verus! {

/// One comma-separated element of a numeric cron field.
#[derive(Clone, Copy, Debug, PartialEq, Eq, Structural)]
pub enum FieldItem {
    /// A single value: `A`.
    Value(u8),
    /// An inclusive range with a step: `A-B` (step 1) or `A-B/N`.
    Range(u8, u8, u8),
    /// The whole range of the field with a step: `*` (step 1) or `*/N`.
    Full(u8),
}

/// Whether `item` selects the value `v` in a field whose smallest value is `lo`.
pub open spec fn item_matches(item: FieldItem, lo: int, v: int) -> bool {
    match item {
        FieldItem::Value(x) => v == x,
        FieldItem::Range(a, b, s) => s > 0 && a <= v <= b && (v - a) % (s as int) == 0,
        FieldItem::Full(s) => s > 0 && lo <= v && (v - lo) % (s as int) == 0,
    }
}

/// Whether some item of the field selects `v`.
pub open spec fn field_matches(f: Seq<FieldItem>, lo: int, v: int) -> bool {
    exists|i: int| 0 <= i < f.len() && item_matches(#[trigger] f[i], lo, v)
}

/// The field is a plain `*`: it restricts nothing.
pub open spec fn is_star(f: Seq<FieldItem>) -> bool {
    f.len() == 1 && f[0] == FieldItem::Full(1)
}

/// Whether the field selects `v`; in a day-of-week field a selected 7 also
/// selects 0, since both name Sunday.
pub open spec fn field_hits(f: Seq<FieldItem>, lo: int, v: int, weekday: bool) -> bool {
    field_matches(f, lo, v) || (weekday && v == 0 && field_matches(f, lo, 7))
}

/// The values in `lo .. n` that the field selects, in increasing order.
pub open spec fn values_below(f: Seq<FieldItem>, lo: int, n: int, weekday: bool) -> Seq<u8>
    decreases n - lo,
{
    if n <= lo {
        Seq::empty()
    } else if field_hits(f, lo, n - 1, weekday) {
        values_below(f, lo, n - 1, weekday).push((n - 1) as u8)
    } else {
        values_below(f, lo, n - 1, weekday)
    }
}

/// What a field becomes in a calendar expression: `None` for a plain `*`,
/// else the selected values of `lo ..= hi` listed one by one.
pub open spec fn expansion(f: Seq<FieldItem>, lo: int, hi: int, weekday: bool) -> Option<Seq<u8>> {
    if is_star(f) {
        None
    } else {
        Some(values_below(f, lo, hi + 1, weekday))
    }
}

/// A value of a calendar slot: `None` admits every value.
pub open spec fn slot_admits(slot: Option<Seq<u8>>, v: int) -> bool {
    match slot {
        None => true,
        Some(vals) => vals.contains(v as u8),
    }
}

/// Every item lies within `lo ..= hi` and no step is zero.
pub open spec fn field_in_range(f: Seq<FieldItem>, lo: int, hi: int) -> bool {
    forall|i: int|
        0 <= i < f.len() ==> match #[trigger] f[i] {
            FieldItem::Value(x) => lo <= x <= hi,
            FieldItem::Range(a, b, s) => lo <= a <= b <= hi && s > 0,
            FieldItem::Full(s) => s > 0,
        }
}

pub proof fn lemma_values_below(f: Seq<FieldItem>, lo: int, n: int, weekday: bool, v: int)
    requires
        0 <= lo,
        n <= 256,
    ensures
        values_below(f, lo, n, weekday).contains(v as u8) && 0 <= v <= 255
            <==> lo <= v < n && field_hits(f, lo, v, weekday),
    decreases n - lo,
{
    if n > lo {
        lemma_values_below(f, lo, n - 1, weekday, v);
        let prev = values_below(f, lo, n - 1, weekday);
        if field_hits(f, lo, n - 1, weekday) {
            let cur = prev.push((n - 1) as u8);
            if cur.contains(v as u8) && 0 <= v <= 255 {
                let k = choose|k: int| 0 <= k < cur.len() && cur[k] == v as u8;
                if k < prev.len() as int {
                    assert(prev[k] == cur[k]);
                }
            }
            if lo <= v < n && field_hits(f, lo, v, weekday) && v == n - 1 {
                assert(cur[prev.len() as int] == v as u8);
            }
            if prev.contains(v as u8) {
                let k = choose|k: int| 0 <= k < prev.len() && prev[k] == v as u8;
                assert(cur[k] == prev[k]);
            }
        }
    }
}

/// A plain `*`, or a slot built from a field, admits exactly what the field selects.
pub proof fn lemma_expansion(f: Seq<FieldItem>, lo: int, hi: int, weekday: bool, v: int)
    requires
        0 <= lo <= v <= hi <= 255,
    ensures
        slot_admits(expansion(f, lo, hi, weekday), v) <==> field_hits(f, lo, v, weekday),
{
    if is_star(f) {
        assert(item_matches(f[0], lo, v));
    } else {
        lemma_values_below(f, lo, hi + 1, weekday, v);
    }
}

/// Two fields that select the same values of `lo .. n` list the same values.
pub proof fn lemma_values_below_ext(
    f: Seq<FieldItem>,
    g: Seq<FieldItem>,
    lo: int,
    n: int,
    weekday: bool,
)
    requires
        forall|v: int| lo <= v < n ==> field_hits(f, lo, v, weekday) == field_hits(g, lo, v, weekday),
    ensures
        values_below(f, lo, n, weekday) == values_below(g, lo, n, weekday),
    decreases n - lo,
{
    if n > lo {
        lemma_values_below_ext(f, g, lo, n - 1, weekday);
    }
}

fn item_selects(item: FieldItem, lo: u8, v: u8) -> (r: bool)
    ensures
        r == item_matches(item, lo as int, v as int),
{
    match item {
        FieldItem::Value(x) => v == x,
        FieldItem::Range(a, b, s) => s > 0 && a <= v && v <= b && (v - a) % s == 0,
        FieldItem::Full(s) => s > 0 && lo <= v && (v - lo) % s == 0,
    }
}

/// Whether the field selects `v`.
pub fn selects(f: &Vec<FieldItem>, lo: u8, v: u8) -> (r: bool)
    ensures
        r == field_matches(f@, lo as int, v as int),
{
    let mut i: usize = 0;
    while i < f.len()
        invariant
            i <= f.len(),
            forall|j: int| 0 <= j < i ==> !item_matches(#[trigger] f@[j], lo as int, v as int),
        decreases f.len() - i,
    {
        if item_selects(f[i], lo, v) {
            return true;
        }
        i = i + 1;
    }
    false
}

fn hits(f: &Vec<FieldItem>, lo: u8, v: u8, weekday: bool) -> (r: bool)
    ensures
        r == field_hits(f@, lo as int, v as int, weekday),
{
    selects(f, lo, v) || (weekday && v == 0 && selects(f, lo, 7))
}

/// Whether the field is a plain `*`.
pub fn star(f: &Vec<FieldItem>) -> (r: bool)
    ensures
        r == is_star(f@),
{
    f.len() == 1 && f[0] == FieldItem::Full(1)
}

/// The slot that the field becomes in a calendar expression, over `lo ..= hi`.
pub fn expand(f: &Vec<FieldItem>, lo: u8, hi: u8, weekday: bool) -> (r: Option<Vec<u8>>)
    requires
        lo <= hi < 255,
    ensures
        r matches Some(vals) ==> expansion(f@, lo as int, hi as int, weekday) == Some(vals@),
        r is None <==> expansion(f@, lo as int, hi as int, weekday) is None,
{
    if star(f) {
        return None;
    }
    let mut out: Vec<u8> = Vec::new();
    let mut v: u8 = lo;
    while v <= hi
        invariant
            lo <= v <= hi + 1,
            hi < 255,
            out@ == values_below(f@, lo as int, v as int, weekday),
        decreases hi + 1 - v,
    {
        if hits(f, lo, v, weekday) {
            out.push(v);
        }
        v = v + 1;
    }
    Some(out)
}

/// Whether every item lies within `lo ..= hi` with a step above zero.
pub fn in_range(f: &Vec<FieldItem>, lo: u8, hi: u8) -> (r: bool)
    ensures
        r == field_in_range(f@, lo as int, hi as int),
{
    let mut i: usize = 0;
    while i < f.len()
        invariant
            i <= f.len(),
            field_in_range(f@.take(i as int), lo as int, hi as int),
        decreases f.len() - i,
    {
        let ok = match f[i] {
            FieldItem::Value(x) => lo <= x && x <= hi,
            FieldItem::Range(a, b, s) => lo <= a && a <= b && b <= hi && s > 0,
            FieldItem::Full(s) => s > 0,
        };
        if !ok {
            assert(!field_in_range(f@, lo as int, hi as int)) by {
                assert(f@[i as int] == f@[i as int]);
            }
            return false;
        }
        assert(f@.take(i + 1) == f@.take(i as int).push(f@[i as int]));
        i = i + 1;
    }
    assert(f@.take(f.len() as int) == f@);
    true
}

} // verus!
