use vstd::prelude::*;

use crate::idlist::{dec_chars, render_id_list, render_spec};
use vstd::string::{StrSliceExecFns, StringExecFns};

verus! {

/// Root of the account directories.
pub const USERS: &'static str = "/etc/users";

/// Root of the group directories.
pub const GROUPS: &'static str = "/etc/groups";

/// Name of the site template for new password headers, under sysconfdir.
pub const AUTHTEMPLATE: &'static str = "authtemplate";

/// `comp` appended to `base` as a path component: an absolute `comp`
/// replaces `base`; a separator is added unless `base` is empty or ends in one.
pub open spec fn join_spec(base: Seq<char>, comp: Seq<char>) -> Seq<char> {
    if comp.len() > 0 && comp[0] == '/' {
        comp
    } else if base.len() == 0 || base.last() == '/' {
        base + comp
    } else {
        base + seq!['/'] + comp
    }
}

/// The path without its leading separators.
pub open spec fn strip_root_spec(s: Seq<char>) -> Seq<char>
    decreases s.len(),
{
    if s.len() > 0 && s[0] == '/' {
        strip_root_spec(s.drop_first())
    } else {
        s
    }
}

/// The path without its trailing separators.
pub open spec fn trim_spec(s: Seq<char>) -> Seq<char>
    decreases s.len(),
{
    if s.len() > 0 && s.last() == '/' {
        trim_spec(s.drop_last())
    } else {
        s
    }
}

/// The characters after the last separator.
pub open spec fn tail_spec(s: Seq<char>) -> Seq<char>
    decreases s.len(),
{
    if s.len() == 0 || s.last() == '/' {
        Seq::empty()
    } else {
        tail_spec(s.drop_last()).push(s.last())
    }
}

/// The final component of a path, trailing separators ignored; `None` when
/// there is none or it is `.` or `..`.
pub open spec fn file_name_spec(s: Seq<char>) -> Option<Seq<char>> {
    let c = tail_spec(trim_spec(s));
    if c.len() == 0 || c == seq!['.'] || c == seq!['.', '.'] {
        None
    } else {
        Some(c)
    }
}

/// The path without its final component and the separators before it; the
/// root stays the root.
pub open spec fn parent_spec(s: Seq<char>) -> Seq<char> {
    let t = trim_spec(s);
    let p = t.subrange(0, t.len() - tail_spec(t).len());
    if trim_spec(p).len() == 0 && p.len() > 0 {
        seq!['/']
    } else {
        trim_spec(p)
    }
}

/// The decimal form of `n`.
pub fn decimal(n: u32) -> (r: String)
    ensures
        r@ == dec_chars(n as nat),
{
    let v: Vec<u32> = vec![n];
    assert(v@ =~= seq![n]);
    let r = render_id_list(&v);
    assert(render_spec(v@) == dec_chars(n as nat));
    r
}

/// A root moved under `chroot`: `<chroot>/<root without its leading separators>`.
pub fn chrooted(chroot: &str, root: &str) -> (r: String)
    ensures
        r@ == join_spec(chroot@, strip_root_spec(root@)),
{
    join_path(chroot, strip_root(root))
}

/// `comp` appended to `base` as a path component.
pub fn join_path(base: &str, comp: &str) -> (r: String)
    ensures
        r@ == join_spec(base@, comp@),
{
    let nc = comp.unicode_len();
    if nc > 0 && comp.get_char(0) == '/' {
        return String::from_str(comp);
    }
    let nb = base.unicode_len();
    let mut r = String::from_str(base);
    if nb > 0 && base.get_char(nb - 1) != '/' {
        proof {
            reveal_strlit("/");
        }
        r.append("/");
    }
    r.append(comp);
    r
}

/// The path without its leading separators.
pub fn strip_root(s: &str) -> (r: &str)
    ensures
        r@ == strip_root_spec(s@),
{
    let n = s.unicode_len();
    let mut i: usize = 0;
    assert(s@.subrange(0, n as int) =~= s@);
    while i < n && s.get_char(i) == '/'
        invariant
            n == s@.len(),
            i <= n,
            strip_root_spec(s@) == strip_root_spec(s@.subrange(i as int, n as int)),
        decreases n - i,
    {
        assert(s@.subrange(i as int, n as int).drop_first() =~= s@.subrange(i + 1, n as int));
        i = i + 1;
    }
    s.substring_char(i, n)
}

/// Length of the path once its trailing separators are dropped.
fn trimmed_len(s: &str) -> (k: usize)
    ensures
        k <= s@.len(),
        trim_spec(s@) == s@.subrange(0, k as int),
{
    let mut k = s.unicode_len();
    assert(s@.subrange(0, k as int) =~= s@);
    while k > 0 && s.get_char(k - 1) == '/'
        invariant
            k <= s@.len(),
            trim_spec(s@) == trim_spec(s@.subrange(0, k as int)),
        decreases k,
    {
        assert(s@.subrange(0, k as int).drop_last() =~= s@.subrange(0, k - 1));
        k = k - 1;
    }
    k
}

/// Start of the characters after the last separator in the first `k`.
fn tail_start(s: &str, k: usize) -> (j: usize)
    requires
        k <= s@.len(),
    ensures
        j <= k,
        tail_spec(s@.subrange(0, k as int)) == s@.subrange(j as int, k as int),
{
    let mut j = k;
    while j > 0 && s.get_char(j - 1) != '/'
        invariant
            j <= k <= s@.len(),
            tail_spec(s@.subrange(0, k as int)) == tail_spec(s@.subrange(0, j as int)) + s@.subrange(
                j as int,
                k as int,
            ),
        decreases j,
    {
        assert(s@.subrange(0, j as int).drop_last() =~= s@.subrange(0, j - 1));
        assert(s@.subrange(j - 1, k as int) =~= seq![s@[j - 1]] + s@.subrange(j as int, k as int));
        j = j - 1;
    }
    assert(tail_spec(s@.subrange(0, j as int)) =~= Seq::<char>::empty());
    assert(tail_spec(s@.subrange(0, k as int)) =~= s@.subrange(j as int, k as int));
    j
}

/// The final component of a path (trailing separators ignored); `None` when
/// there is none or it is `.` or `..`.
pub fn file_name(s: &str) -> (r: Option<String>)
    ensures
        match file_name_spec(s@) {
            None => r is None,
            Some(c) => r matches Some(v) && v@ == c,
        },
{
    let k = trimmed_len(s);
    let j = tail_start(s, k);
    assert(s@.subrange(0, k as int).subrange(0, k as int) =~= s@.subrange(0, k as int));
    let c = s.substring_char(j, k);
    let n = k - j;
    if n == 0 || (n == 1 && c.get_char(0) == '.') || (n == 2 && c.get_char(0) == '.'
        && c.get_char(1) == '.') {
        proof {
            if n == 1 {
                assert(c@ =~= seq!['.']);
            }
            if n == 2 {
                assert(c@ =~= seq!['.', '.']);
            }
        }
        return None;
    }
    proof {
        if c@ == seq!['.'] {
            assert(c@[0] == '.');
        }
        if c@ == seq!['.', '.'] {
            assert(c@[0] == '.' && c@[1] == '.');
        }
    }
    Some(String::from_str(c))
}

/// The path without its final component and the separators before it.
pub fn parent(s: &str) -> (r: String)
    ensures
        r@ == parent_spec(s@),
{
    let k = trimmed_len(s);
    let j = tail_start(s, k);
    let t = s.substring_char(0, k);
    assert(t@.subrange(0, k as int) =~= t@);
    let p = t.substring_char(0, j);
    assert(p@ =~= t@.subrange(0, t@.len() - tail_spec(t@).len()));
    let m = trimmed_len(p);
    assert(p@.subrange(0, m as int).len() == m);
    if m == 0 && j > 0 {
        proof {
            reveal_strlit("/");
        }
        return String::from_str("/");
    }
    String::from_str(p.substring_char(0, m))
}

} // verus!
