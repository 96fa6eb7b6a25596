//! The order of version strings: a leading run of `v` is ignored, the rest is
//! split at `.`, missing components count as `0`, components that both parse
//! as `u32` compare as numbers and all others compare as strings.
use vstd::prelude::*;
use crate::text::{
    all_digits, digit_value, digits_value, unsigned_body,
    char_views, chars_eq, chars_of, lemma_lex_lt_asymmetric, lex_lt, lex_lt_exec, lemma_split_char_nonempty, parse_unsigned,
    parse_unsigned_exec, split_char, split_chars, trim_start_char, trim_start_char_exec,
};

verus! {

/// The outcome of comparing two versions.
#[derive(Clone, Copy, Debug, PartialEq, Eq, Structural)]
pub enum VersionOrder {
    Less,
    Equal,
    Greater,
}

/// The same comparison seen from the other side.
pub open spec fn flip(o: VersionOrder) -> VersionOrder {
    match o {
        VersionOrder::Less => VersionOrder::Greater,
        VersionOrder::Equal => VersionOrder::Equal,
        VersionOrder::Greater => VersionOrder::Less,
    }
}

/// The components of a version string.
pub open spec fn version_parts(v: Seq<char>) -> Seq<Seq<char>> {
    split_char(trim_start_char(v, 'v'), '.')
}

/// The `i`th component, or `"0"` past the end.
pub open spec fn part_at(ps: Seq<Seq<char>>, i: int) -> Seq<char> {
    if 0 <= i < ps.len() {
        ps[i]
    } else {
        seq!['0']
    }
}

/// `str::parse::<u32>`.
pub open spec fn parse_u32(s: Seq<char>) -> Option<int> {
    parse_unsigned(s, 4294967295)
}

pub open spec fn max_len(a: Seq<Seq<char>>, b: Seq<Seq<char>>) -> int {
    if a.len() > b.len() {
        a.len() as int
    } else {
        b.len() as int
    }
}

/// How two single components compare, or `Equal` to look further.
pub open spec fn part_order(a: Seq<char>, b: Seq<char>) -> VersionOrder {
    match (parse_u32(a), parse_u32(b)) {
        (Some(x), Some(y)) => if x < y {
            VersionOrder::Less
        } else if x > y {
            VersionOrder::Greater
        } else {
            VersionOrder::Equal
        },
        _ => if a == b {
            VersionOrder::Equal
        } else if lex_lt(a, b) {
            VersionOrder::Less
        } else {
            VersionOrder::Greater
        },
    }
}

/// Compares the components from index `i` on: the first component pair that
/// differs decides.
pub open spec fn order_from(ps1: Seq<Seq<char>>, ps2: Seq<Seq<char>>, i: int) -> VersionOrder
    decreases max_len(ps1, ps2) - i,
{
    if i >= max_len(ps1, ps2) {
        VersionOrder::Equal
    } else {
        let o = part_order(part_at(ps1, i), part_at(ps2, i));
        if o == VersionOrder::Equal {
            order_from(ps1, ps2, i + 1)
        } else {
            o
        }
    }
}

/// The order of two version strings.
pub open spec fn version_order(v1: Seq<char>, v2: Seq<char>) -> VersionOrder {
    order_from(version_parts(v1), version_parts(v2), 0)
}

fn part_order_exec(a: &Vec<char>, b: &Vec<char>) -> (r: VersionOrder)
    ensures
        r == part_order(a@, b@),
{
    let x = parse_unsigned_exec(a, 4294967295);
    let y = parse_unsigned_exec(b, 4294967295);
    match (x, y) {
        (Some(x), Some(y)) => {
            if x < y {
                VersionOrder::Less
            } else if x > y {
                VersionOrder::Greater
            } else {
                VersionOrder::Equal
            }
        },
        _ => {
            if chars_eq(a, b) {
                VersionOrder::Equal
            } else if lex_lt_exec(a, b) {
                VersionOrder::Less
            } else {
                VersionOrder::Greater
            }
        },
    }
}

fn order_of_parts(ps1: &Vec<Vec<char>>, ps2: &Vec<Vec<char>>) -> (r: VersionOrder)
    ensures
        r == order_from(char_views(ps1@), char_views(ps2@), 0),
{
    let ghost q1 = char_views(ps1@);
    let ghost q2 = char_views(ps2@);
    let n = if ps1.len() > ps2.len() {
        ps1.len()
    } else {
        ps2.len()
    };
    let zero: Vec<char> = vec!['0'];
    let mut i: usize = 0;
    while i < n
        invariant
            q1 == char_views(ps1@),
            q2 == char_views(ps2@),
            n == max_len(q1, q2),
            i <= n,
            zero@ == seq!['0'],
            order_from(q1, q2, 0) == order_from(q1, q2, i as int),
        decreases n - i,
    {
        let a = if i < ps1.len() {
            &ps1[i]
        } else {
            &zero
        };
        let b = if i < ps2.len() {
            &ps2[i]
        } else {
            &zero
        };
        assert(a@ == part_at(q1, i as int));
        assert(b@ == part_at(q2, i as int));
        let o = part_order_exec(a, b);
        if o != VersionOrder::Equal {
            return o;
        }
        i = i + 1;
    }
    VersionOrder::Equal
}

/// The components of a version string, computed.
pub fn version_parts_exec(v: &str) -> (r: Vec<Vec<char>>)
    ensures
        char_views(r@) == version_parts(v@),
{
    let c = chars_of(v);
    let t = trim_start_char_exec(&c, 'v');
    split_chars(&t, '.')
}

/// Compares two version strings component-wise.
pub fn version_order_exec(v1: &str, v2: &str) -> (r: VersionOrder)
    ensures
        r == version_order(v1@, v2@),
{
    let p1 = version_parts_exec(v1);
    let p2 = version_parts_exec(v2);
    order_of_parts(&p1, &p2)
}

// ---------------------------------------------------------------------------
// Laws of the order
// ---------------------------------------------------------------------------

proof fn lemma_part_order_flip(a: Seq<char>, b: Seq<char>)
    ensures
        part_order(a, b) == flip(part_order(b, a)),
{
    if a != b {
        lemma_lex_lt_asymmetric(a, b);
    }
}

proof fn lemma_order_from_flip(ps1: Seq<Seq<char>>, ps2: Seq<Seq<char>>, i: int)
    ensures
        order_from(ps1, ps2, i) == flip(order_from(ps2, ps1, i)),
    decreases max_len(ps1, ps2) - i,
{
    if i < max_len(ps1, ps2) {
        lemma_part_order_flip(part_at(ps1, i), part_at(ps2, i));
        lemma_order_from_flip(ps1, ps2, i + 1);
    }
}

proof fn lemma_order_from_same(ps: Seq<Seq<char>>, i: int)
    ensures
        order_from(ps, ps, i) == VersionOrder::Equal,
    decreases max_len(ps, ps) - i,
{
    if i < max_len(ps, ps) {
        lemma_order_from_same(ps, i + 1);
    }
}

/// Every version equals itself.
pub proof fn lemma_version_order_reflexive(v: Seq<char>)
    ensures
        version_order(v, v) == VersionOrder::Equal,
{
    lemma_order_from_same(version_parts(v), 0);
}

/// Comparing the other way round gives the opposite answer.
pub proof fn lemma_version_order_antisymmetric(v1: Seq<char>, v2: Seq<char>)
    ensures
        version_order(v1, v2) == flip(version_order(v2, v1)),
{
    lemma_order_from_flip(version_parts(v1), version_parts(v2), 0);
}

/// A leading `v` does not change how a version compares (`v1.2` and `1.2`
/// are the same version).
pub proof fn lemma_version_order_ignores_v_prefix(v1: Seq<char>, v2: Seq<char>)
    ensures
        version_order(seq!['v'] + v1, v2) == version_order(v1, v2),
        version_order(v1, seq!['v'] + v2) == version_order(v1, v2),
{
    assert((seq!['v'] + v1).drop_first() =~= v1);
    assert((seq!['v'] + v2).drop_first() =~= v2);
}

proof fn lemma_trim_v_append(a: Seq<char>, x: Seq<char>)
    requires
        x.len() > 0,
        x[0] != 'v',
    ensures
        trim_start_char(a + x, 'v') == trim_start_char(a, 'v') + x,
    decreases a.len(),
{
    if a.len() == 0 {
        assert(a + x =~= x);
        assert(Seq::<char>::empty() + x =~= x);
    } else {
        assert((a + x)[0] == a[0]);
        if a[0] == 'v' {
            assert((a + x).drop_first() =~= a.drop_first() + x);
            lemma_trim_v_append(a.drop_first(), x);
        }
    }
}

proof fn lemma_order_from_zero_extended(ps: Seq<Seq<char>>, i: int)
    requires
        0 <= i <= ps.len(),
    ensures
        order_from(ps.push(seq!['0']), ps, i) == VersionOrder::Equal,
    decreases ps.len() + 1 - i,
{
    let qs = ps.push(seq!['0']);
    assert(max_len(qs, ps) == ps.len() + 1);
    assert(part_at(qs, i) == part_at(ps, i));
    if i < ps.len() {
        lemma_order_from_zero_extended(ps, i + 1);
    } else {
        assert(order_from(qs, ps, i + 1) == VersionOrder::Equal);
    }
}

/// Missing trailing components count as zero: `1.2` and `1.2.0` are the same
/// version.
pub proof fn lemma_version_order_trailing_zero(v: Seq<char>)
    ensures
        version_order(v + seq!['.', '0'], v) == VersionOrder::Equal,
{
    let x = seq!['.', '0'];
    lemma_trim_v_append(v, x);
    let t = trim_start_char(v, 'v');
    let tx = t + x;
    assert(tx.drop_last() =~= t.push('.'));
    assert(t.push('.').drop_last() =~= t);
    lemma_split_char_nonempty(t, '.');
    let pt = split_char(t, '.');
    assert(tx.last() == '0');
    assert(t.push('.').last() == '.');
    assert(split_char(t.push('.'), '.') == pt.push(Seq::<char>::empty()));
    assert(split_char(tx, '.') == pt.push(Seq::<char>::empty()).update(
        pt.len() as int,
        Seq::<char>::empty().push('0'),
    ));
    assert(split_char(tx, '.') =~= pt.push(seq!['0']));
    lemma_order_from_zero_extended(split_char(t, '.'), 0);
}


proof fn lemma_order_from_reaches(ps1: Seq<Seq<char>>, ps2: Seq<Seq<char>>, i: int, k: int)
    requires
        0 <= i <= k < max_len(ps1, ps2),
        forall|j: int| i <= j < k ==> #[trigger] part_order(part_at(ps1, j), part_at(ps2, j)) == VersionOrder::Equal,
        part_order(part_at(ps1, k), part_at(ps2, k)) != VersionOrder::Equal,
    ensures
        order_from(ps1, ps2, i) == part_order(part_at(ps1, k), part_at(ps2, k)),
    decreases k - i,
{
    if i < k {
        assert(part_order(part_at(ps1, i), part_at(ps2, i)) == VersionOrder::Equal);
        lemma_order_from_reaches(ps1, ps2, i + 1, k);
    }
}

/// The first pair of components that differs decides, however far into the
/// versions it lies: if the components of two versions compare equal at
/// every index below `k` and differ at `k`, the versions compare as those
/// two components do.
pub proof fn lemma_first_difference_decides(v1: Seq<char>, v2: Seq<char>, k: int)
    requires
        0 <= k < max_len(version_parts(v1), version_parts(v2)),
        forall|j: int|
            0 <= j < k ==> #[trigger] part_order(part_at(version_parts(v1), j), part_at(version_parts(v2), j))
                == VersionOrder::Equal,
        part_order(part_at(version_parts(v1), k), part_at(version_parts(v2), k)) != VersionOrder::Equal,
    ensures
        version_order(v1, v2) == part_order(part_at(version_parts(v1), k), part_at(version_parts(v2), k)),
{
    lemma_order_from_reaches(version_parts(v1), version_parts(v2), 0, k);
}

proof fn lemma_part_order_same(a: Seq<char>)
    ensures
        part_order(a, a) == VersionOrder::Equal,
{
}

proof fn lemma_parse_digit(a: char)
    requires
        '0' <= a <= '9',
    ensures
        parse_u32(seq![a]) == Some(a as int - 48),
{
    let d = seq![a];
    assert(unsigned_body(d) == d);
    assert(d.drop_last() =~= Seq::<char>::empty());
    assert(digits_value(d) == digits_value(d.drop_last()) * 10 + digit_value(d.last()));
    assert(all_digits(d));
}

proof fn lemma_parts_with_last(p: Seq<char>, c: char)
    requires
        c != '.',
    ensures
        version_parts(p + seq!['.', c]) == split_char(trim_start_char(p, 'v'), '.').push(seq![c]),
{
    let t = trim_start_char(p, 'v');
    lemma_split_char_nonempty(t, '.');
    let pt = split_char(t, '.');
    let x = seq!['.', c];
    lemma_trim_v_append(p, x);
    let tx = t + x;
    assert(tx.drop_last() =~= t.push('.'));
    assert(t.push('.').drop_last() =~= t);
    assert(tx.last() == c);
    assert(t.push('.').last() == '.');
    assert(split_char(t.push('.'), '.') == pt.push(Seq::<char>::empty()));
    assert(split_char(tx, '.') == pt.push(Seq::<char>::empty()).update(
        pt.len() as int,
        Seq::<char>::empty().push(c),
    ));
    assert(split_char(tx, '.') =~= pt.push(seq![c]));
}

/// Two versions that share everything up to a last component that is a
/// single digit compare as those digits do, however many components the
/// shared part has: `p.4` is older than `p.5` for every `p`.
pub proof fn lemma_last_digit_decides(p: Seq<char>, a: char, b: char)
    requires
        '0' <= a <= '9',
        '0' <= b <= '9',
    ensures
        a < b ==> version_order(p + seq!['.', a], p + seq!['.', b]) == VersionOrder::Less,
        a > b ==> version_order(p + seq!['.', a], p + seq!['.', b]) == VersionOrder::Greater,
        a == b ==> version_order(p + seq!['.', a], p + seq!['.', b]) == VersionOrder::Equal,
{
    let t = trim_start_char(p, 'v');
    lemma_split_char_nonempty(t, '.');
    let pt = split_char(t, '.');
    lemma_parts_with_last(p, a);
    lemma_parts_with_last(p, b);
    let q1 = version_parts(p + seq!['.', a]);
    let q2 = version_parts(p + seq!['.', b]);
    assert(q1 == pt.push(seq![a]));
    assert(q2 == pt.push(seq![b]));
    let k = pt.len() as int;
    lemma_parse_digit(a);
    lemma_parse_digit(b);
    assert(part_at(q1, k) == seq![a]);
    assert(part_at(q2, k) == seq![b]);
    assert forall|j: int| 0 <= j < k implies #[trigger] part_order(part_at(q1, j), part_at(q2, j)) == VersionOrder::Equal by {
        assert(part_at(q1, j) == pt[j]);
        assert(part_at(q2, j) == pt[j]);
        lemma_part_order_same(pt[j]);
    }
    if a != b {
        lemma_first_difference_decides(p + seq!['.', a], p + seq!['.', b], k);
    } else {
        lemma_version_order_reflexive(p + seq!['.', a]);
    }
}

} // verus!
