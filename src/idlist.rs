use vstd::prelude::*;

use crate::error::StoreError;
use itertools::Itertools;

verus! {

/// The character of a decimal digit.
pub open spec fn digit_char(d: nat) -> char {
    ((48 + d) as u8) as char
}

/// The decimal form of `n`: no sign, no leading zeros.
pub open spec fn dec_chars(n: nat) -> Seq<char>
    decreases n,
{
    if n < 10 {
        seq![digit_char(n)]
    } else {
        dec_chars(n / 10).push(digit_char(n % 10))
    }
}

/// The state of reading a list left to right: the values completed so far,
/// the value of the field being read, and whether that field has a digit.
/// `None` once the text cannot be a list.
pub open spec fn step(st: Option<(Seq<u32>, nat, bool)>, c: char) -> Option<(Seq<u32>, nat, bool)> {
    match st {
        None => None,
        Some((done, cur, digits)) => if c == ',' {
            if digits {
                Some((done.push(cur as u32), 0, false))
            } else {
                None
            }
        } else if '0' <= c && c <= '9' {
            let v = cur * 10 + (c as nat - 48);
            if v > u32::MAX {
                None
            } else {
                Some((done, v as nat, true))
            }
        } else {
            None
        },
    }
}

pub open spec fn scan(s: Seq<char>) -> Option<(Seq<u32>, nat, bool)>
    decreases s.len(),
{
    if s.len() == 0 {
        Some((Seq::empty(), 0, false))
    } else {
        step(scan(s.drop_last()), s.last())
    }
}

/// The ids that a list text holds: decimal fields that fit in 32 bits,
/// separated by single commas. The empty text is the empty list.
pub open spec fn parse_list_spec(s: Seq<char>) -> Option<Seq<u32>> {
    if s.len() == 0 {
        Some(Seq::empty())
    } else {
        match scan(s) {
            Some((done, cur, true)) => Some(done.push(cur as u32)),
            _ => None,
        }
    }
}

/// The value of a single decimal field that fits in 32 bits.
pub open spec fn parse_decimal_spec(s: Seq<char>) -> Option<u32> {
    match scan(s) {
        Some((done, cur, true)) => if done.len() == 0 {
            Some(cur as u32)
        } else {
            None
        },
        _ => None,
    }
}

/// The text of a list: the decimal forms separated by commas.
pub open spec fn render_spec(ids: Seq<u32>) -> Seq<char>
    decreases ids.len(),
{
    if ids.len() == 0 {
        Seq::empty()
    } else if ids.len() == 1 {
        dec_chars(ids[0] as nat)
    } else {
        render_spec(ids.drop_last()) + seq![','] + dec_chars(ids.last() as nat)
    }
}

pub open spec fn strictly_ascending(s: Seq<u32>) -> bool {
    forall|i: int, j: int| 0 <= i < j < s.len() ==> s[i] < s[j]
}

pub open spec fn non_decreasing(s: Seq<u32>) -> bool {
    forall|i: int, j: int| 0 <= i < j < s.len() ==> s[i] <= s[j]
}

/// Runs of equal neighbours collapsed to one element.
pub open spec fn dedup_spec(s: Seq<u32>) -> Seq<u32>
    decreases s.len(),
{
    if s.len() == 0 {
        s
    } else {
        let d = dedup_spec(s.drop_last());
        if d.len() > 0 && d.last() == s.last() {
            d
        } else {
            d.push(s.last())
        }
    }
}

/// The list without the id `g`, order kept.
pub open spec fn remove_spec(s: Seq<u32>, g: u32) -> Seq<u32>
    decreases s.len(),
{
    if s.len() == 0 {
        s
    } else {
        let r = remove_spec(s.drop_last(), g);
        if s.last() == g {
            r
        } else {
            r.push(s.last())
        }
    }
}

/// `r` is the canonical list of the ids of `l` and `g`: ascending, without
/// repeats.
pub open spec fn is_added(l: Seq<u32>, g: u32, r: Seq<u32>) -> bool {
    strictly_ascending(r) && forall|x: u32| r.contains(x) <==> (l.contains(x) || x == g)
}

/// Relies on `itertools::Itertools::join` over `u32`'s `Display`: each id's
/// decimal form, separated by commas.
#[verifier::external_body]
fn join_ids(ids: &Vec<u32>) -> (r: String)
    ensures
        r@ == render_spec(ids@),
{
    ids.iter().join(",")
}

/// Relies on `itertools::Itertools::dedup`: runs of equal neighbours collapse
/// to one element.
#[verifier::external_body]
fn dedup_ids(ids: &Vec<u32>) -> (r: Vec<u32>)
    ensures
        r@ == dedup_spec(ids@),
{
    ids.iter().copied().dedup().collect()
}

/// Relies on `slice::sort_unstable`: the same elements, in ascending order.
#[verifier::external_body]
fn sort_ids(ids: &mut Vec<u32>)
    ensures
        final(ids)@.to_multiset() == old(ids)@.to_multiset(),
        non_decreasing(final(ids)@),
{
    ids.sort_unstable()
}

proof fn lemma_scan_push(s: Seq<char>, c: char)
    ensures
        scan(s.push(c)) == step(scan(s), c),
{
    assert(s.push(c).drop_last() =~= s);
}

proof fn lemma_scan_bad_stays(s: Seq<char>, i: int)
    requires
        0 <= i <= s.len(),
        scan(s.subrange(0, i)) is None,
    ensures
        scan(s) is None,
    decreases s.len() - i,
{
    if i < s.len() {
        lemma_scan_push(s.subrange(0, i), s[i]);
        assert(s.subrange(0, i).push(s[i]) =~= s.subrange(0, i + 1));
        lemma_scan_bad_stays(s, i + 1);
    } else {
        assert(s.subrange(0, i) =~= s);
    }
}

proof fn lemma_dec_digits(p: Seq<char>, d: Seq<u32>, n: nat)
    requires
        scan(p) == Some::<(Seq<u32>, nat, bool)>((d, 0, false)),
        n <= u32::MAX,
    ensures
        scan(p + dec_chars(n)) == Some::<(Seq<u32>, nat, bool)>((d, n, true)),
    decreases n,
{
    if n < 10 {
        assert(p + dec_chars(n) =~= p.push(digit_char(n)));
        lemma_scan_push(p, digit_char(n));
    } else {
        lemma_dec_digits(p, d, n / 10);
        assert(p + dec_chars(n) =~= (p + dec_chars(n / 10)).push(digit_char(n % 10)));
        lemma_scan_push(p + dec_chars(n / 10), digit_char(n % 10));
    }
}

proof fn lemma_scan_render(l: Seq<u32>)
    requires
        l.len() >= 1,
    ensures
        scan(render_spec(l)) == Some::<(Seq<u32>, nat, bool)>(
            (l.drop_last(), l.last() as nat, true),
        ),
    decreases l.len(),
{
    if l.len() == 1 {
        let e = Seq::<char>::empty();
        assert(scan(e) == Some::<(Seq<u32>, nat, bool)>((Seq::empty(), 0, false)));
        lemma_dec_digits(e, Seq::empty(), l[0] as nat);
        assert(e + dec_chars(l[0] as nat) =~= dec_chars(l[0] as nat));
        assert(l.drop_last() =~= Seq::<u32>::empty());
    } else {
        let l2 = l.drop_last();
        lemma_scan_render(l2);
        let p = render_spec(l2) + seq![','];
        assert(p =~= render_spec(l2).push(','));
        lemma_scan_push(render_spec(l2), ',');
        assert(l2.drop_last().push(l2.last() as u32) =~= l2);
        lemma_dec_digits(p, l2, l.last() as nat);
    }
}

/// Rendering a list and reading the text back gives the list.
pub proof fn lemma_render_parse(l: Seq<u32>)
    ensures
        parse_list_spec(render_spec(l)) == Some(l),
{
    if l.len() == 0 {
    } else {
        lemma_dec_nonempty(l.last() as nat);
        lemma_render_nonempty(l);
        lemma_scan_render(l);
        assert(l.drop_last().push(l.last()) =~= l);
    }
}

proof fn lemma_dec_nonempty(n: nat)
    ensures
        dec_chars(n).len() > 0,
    decreases n,
{
    if n >= 10 {
        lemma_dec_nonempty(n / 10);
    }
}

proof fn lemma_render_nonempty(l: Seq<u32>)
    requires
        l.len() > 0,
    ensures
        render_spec(l).len() > 0,
{
    lemma_dec_nonempty(l.last() as nat);
    if l.len() == 1 {
        lemma_dec_nonempty(l[0] as nat);
    }
}

proof fn lemma_dedup_sorted(s: Seq<u32>)
    requires
        non_decreasing(s),
    ensures
        strictly_ascending(dedup_spec(s)),
        forall|x: u32|
            #![trigger dedup_spec(s).contains(x)]
            #![trigger s.contains(x)]
            dedup_spec(s).contains(x) <==> s.contains(x),
        s.len() > 0 ==> dedup_spec(s).len() > 0 && dedup_spec(s).last() == s.last(),
    decreases s.len(),
{
    if s.len() > 0 {
        let t = s.drop_last();
        lemma_dedup_sorted(t);
        let d = dedup_spec(t);
        let e = dedup_spec(s);
        assert(e == if d.len() > 0 && d.last() == s.last() { d } else { d.push(s.last()) });
        assert forall|x: u32| s.contains(x) implies e.contains(x) by {
            let k = choose|k: int| 0 <= k < s.len() && s[k] == x;
            if k < t.len() {
                assert(t[k] == x);
                assert(t.contains(x));
                assert(d.contains(x));
                let m = choose|m: int| 0 <= m < d.len() && d[m] == x;
                assert(e[m] == x);
            } else if d.len() > 0 && d.last() == s.last() {
                assert(e[d.len() - 1] == x);
            } else {
                assert(e[d.len() as int] == x);
            }
        }
        assert forall|x: u32| e.contains(x) implies s.contains(x) by {
            let k = choose|k: int| 0 <= k < e.len() && e[k] == x;
            if k < d.len() {
                assert(d[k] == x);
                assert(d.contains(x));
                assert(t.contains(x));
                let m = choose|m: int| 0 <= m < t.len() && t[m] == x;
                assert(s[m] == x);
            } else {
                assert(s[s.len() - 1] == x);
            }
        }
        if d.len() > 0 && d.last() != s.last() {
            assert forall|i: int| 0 <= i < d.len() implies d[i] < s.last() by {
                assert(d.contains(d[i]));
                let m = choose|m: int| 0 <= m < t.len() && t[m] == d[i];
                assert(s[m] <= s[s.len() - 1]);
            }
        }
    }
}

proof fn lemma_remove_keeps(s: Seq<u32>, g: u32)
    ensures
        forall|x: u32|
            #![trigger remove_spec(s, g).contains(x)]
            #![trigger s.contains(x)]
            remove_spec(s, g).contains(x) <==> (s.contains(x) && x != g),
        strictly_ascending(s) ==> strictly_ascending(remove_spec(s, g)),
    decreases s.len(),
{
    if s.len() > 0 {
        let t = s.drop_last();
        lemma_remove_keeps(t, g);
        let r = remove_spec(t, g);
        assert forall|x: u32| remove_spec(s, g).contains(x) <==> (s.contains(x) && x != g) by {
            if s.contains(x) && x != g {
                let k = choose|k: int| 0 <= k < s.len() && s[k] == x;
                if k < t.len() {
                    assert(t[k] == x);
                    assert(t.contains(x));
                    let m = choose|m: int| 0 <= m < r.len() && r[m] == x;
                    assert(remove_spec(s, g)[m] == x);
                } else {
                    assert(r.push(s.last())[r.len() as int] == x);
                }
            }
            if remove_spec(s, g).contains(x) {
                let k = choose|k: int| 0 <= k < remove_spec(s, g).len() && remove_spec(s, g)[k]
                    == x;
                if k < r.len() {
                    assert(r[k] == x);
                    assert(r.contains(x));
                    let m = choose|m: int| 0 <= m < t.len() && t[m] == x;
                    assert(s[m] == x);
                } else {
                    assert(s[s.len() - 1] == x);
                }
            }
        }
        if strictly_ascending(s) && s.last() != g {
            assert forall|i: int| 0 <= i < r.len() implies r[i] < s.last() by {
                assert(r.contains(r[i]));
                let m = choose|m: int| 0 <= m < t.len() && t[m] == r[i];
                assert(s[m] < s[s.len() - 1]);
            }
        }
    }
}

/// A canonical group list stays canonical under adding and removing an id,
/// and each result is read back unchanged from its text.
pub proof fn lemma_group_list_canonical(l: Seq<u32>, g: u32, added: Seq<u32>)
    requires
        strictly_ascending(l),
        is_added(l, g, added),
    ensures
        strictly_ascending(added),
        parse_list_spec(render_spec(added)) == Some(added),
        strictly_ascending(remove_spec(l, g)),
        parse_list_spec(render_spec(remove_spec(l, g))) == Some(remove_spec(l, g)),
{
    lemma_remove_keeps(l, g);
    lemma_render_parse(added);
    lemma_render_parse(remove_spec(l, g));
}

/// Reads a list text: `InvalidData` unless it is empty or decimal ids that
/// fit in 32 bits separated by single commas.
pub fn parse_id_list(text: &str) -> (r: Result<Vec<u32>, StoreError>)
    ensures
        match parse_list_spec(text@) {
            Some(l) => r matches Ok(v) && v@ == l,
            None => r == Err::<Vec<u32>, StoreError>(StoreError::InvalidData),
        },
{
    let n = text.unicode_len();
    if n == 0 {
        return Ok(Vec::new());
    }
    let mut done: Vec<u32> = Vec::new();
    let mut cur: u32 = 0;
    let mut digits = false;
    let mut i: usize = 0;
    while i < n
        invariant
            n == text@.len(),
            i <= n,
            scan(text@.subrange(0, i as int)) == Some::<(Seq<u32>, nat, bool)>(
                (done@, cur as nat, digits),
            ),
        decreases n - i,
    {
        let c = text.get_char(i);
        proof {
            lemma_scan_push(text@.subrange(0, i as int), c);
            assert(text@.subrange(0, i as int).push(c) =~= text@.subrange(0, i + 1));
        }
        if c == ',' {
            if !digits {
                proof { lemma_scan_bad_stays(text@, i + 1); }
                return Err(StoreError::InvalidData);
            }
            done.push(cur);
            cur = 0;
            digits = false;
        } else if '0' <= c && c <= '9' {
            let d = (c as u32) - 48;
            if cur > 429496729 || (cur == 429496729 && d > 5) {
                proof { lemma_scan_bad_stays(text@, i + 1); }
                return Err(StoreError::InvalidData);
            }
            cur = cur * 10 + d;
            digits = true;
        } else {
            proof { lemma_scan_bad_stays(text@, i + 1); }
            return Err(StoreError::InvalidData);
        }
        i = i + 1;
    }
    assert(text@.subrange(0, n as int) =~= text@);
    if !digits {
        return Err(StoreError::InvalidData);
    }
    done.push(cur);
    Ok(done)
}

/// The value of a single decimal field that fits in 32 bits; `None` for
/// anything else (an empty text, a sign, another character, a comma).
pub fn parse_decimal(text: &str) -> (r: Option<u32>)
    ensures
        r == parse_decimal_spec(text@),
{
    let n = text.unicode_len();
    let mut cur: u32 = 0;
    let mut digits = false;
    let mut i: usize = 0;
    while i < n
        invariant
            n == text@.len(),
            i <= n,
            scan(text@.subrange(0, i as int)) == Some::<(Seq<u32>, nat, bool)>(
                (Seq::empty(), cur as nat, digits),
            ),
        decreases n - i,
    {
        let c = text.get_char(i);
        proof {
            lemma_scan_push(text@.subrange(0, i as int), c);
            assert(text@.subrange(0, i as int).push(c) =~= text@.subrange(0, i + 1));
        }
        if '0' <= c && c <= '9' {
            let d = (c as u32) - 48;
            if cur > 429496729 || (cur == 429496729 && d > 5) {
                proof { lemma_scan_bad_stays(text@, i + 1); }
                return None;
            }
            cur = cur * 10 + d;
            digits = true;
        } else {
            proof {
                if c == ',' && digits {
                    lemma_scan_after_comma(text@, i + 1);
                } else {
                    lemma_scan_bad_stays(text@, i + 1);
                }
            }
            return None;
        }
        i = i + 1;
    }
    assert(text@.subrange(0, n as int) =~= text@);
    if digits {
        Some(cur)
    } else {
        None
    }
}

proof fn lemma_scan_after_comma(s: Seq<char>, i: int)
    requires
        0 <= i <= s.len(),
        scan(s.subrange(0, i)) matches Some((done, _, _)) && done.len() > 0,
    ensures
        parse_decimal_spec(s) is None,
    decreases s.len() - i,
{
    if i < s.len() {
        lemma_scan_push(s.subrange(0, i), s[i]);
        assert(s.subrange(0, i).push(s[i]) =~= s.subrange(0, i + 1));
        if scan(s.subrange(0, i + 1)) is None {
            lemma_scan_bad_stays(s, i + 1);
        } else {
            lemma_scan_after_comma(s, i + 1);
        }
    } else {
        assert(s.subrange(0, i) =~= s);
    }
}

/// The text of a list: the decimal ids separated by commas.
pub fn render_id_list(ids: &Vec<u32>) -> (r: String)
    ensures
        r@ == render_spec(ids@),
{
    join_ids(ids)
}

/// The canonical list of the ids of `ids` and `g`: sorted ascending, each
/// id once.
pub fn with_id_added(ids: &Vec<u32>, g: u32) -> (r: Vec<u32>)
    ensures
        is_added(ids@, g, r@),
{
    let mut v = ids.clone();
    assert(v@ =~= ids@);
    v.push(g);
    let ghost pushed = v@;
    sort_ids(&mut v);
    let r = dedup_ids(&v);
    proof {
        lemma_dedup_sorted(v@);
        assert forall|x: u32| v@.contains(x) <==> (ids@.contains(x) || x == g) by {
            assert(v@.to_multiset().count(x) == pushed.to_multiset().count(x));
            pushed.to_multiset_ensures();
            v@.to_multiset_ensures();
            if ids@.contains(x) {
                let k = choose|k: int| 0 <= k < ids@.len() && ids@[k] == x;
                assert(pushed[k] == x);
            }
            if x == g {
                assert(pushed[pushed.len() - 1] == x);
            }
            if pushed.contains(x) {
                let k = choose|k: int| 0 <= k < pushed.len() && pushed[k] == x;
                if k < ids@.len() {
                    assert(ids@[k] == x);
                }
            }
        }
    }
    r
}

/// The list without the id `g`, in the same order.
pub fn with_id_removed(ids: &Vec<u32>, g: u32) -> (r: Vec<u32>)
    ensures
        r@ == remove_spec(ids@, g),
{
    let mut r: Vec<u32> = Vec::new();
    let n = ids.len();
    let mut i: usize = 0;
    while i < n
        invariant
            n == ids@.len(),
            i <= n,
            r@ == remove_spec(ids@.subrange(0, i as int), g),
        decreases n - i,
    {
        let x = ids[i];
        assert(ids@.subrange(0, i + 1).drop_last() =~= ids@.subrange(0, i as int));
        if x != g {
            r.push(x);
        }
        i = i + 1;
    }
    assert(ids@.subrange(0, n as int) =~= ids@);
    r
}

} // verus!
