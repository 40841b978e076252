use vstd::prelude::*;

use crate::dirs::{
    chrooted, decimal, file_name, file_name_spec, join_path, join_spec, parent, parent_spec,
    strip_root_spec, tail_spec, trim_spec, GROUPS, USERS,
};
use crate::error::StoreError;
use crate::idlist::{
    dec_chars, is_added, parse_decimal, parse_decimal_spec, parse_id_list,
    parse_list_spec, remove_spec, render_id_list, render_spec, with_id_added, with_id_removed,
};
use vstd::string::StringExecFns;

verus! {

/// An account directory: `USERS/<uid>`, or wherever a name link led.
#[derive(Clone, Debug)]
pub struct UserHandle {
    path: String,
}

impl View for UserHandle {
    type V = Seq<char>;

    closed spec fn view(&self) -> Seq<char> {
        self.path@
    }
}

/// The parsed form of a link whose final component is a decimal id.
pub open spec fn id_link_spec(target: Seq<char>) -> Result<u32, StoreError> {
    match file_name_spec(target) {
        None => Err(StoreError::InvalidData),
        Some(c) => match parse_decimal_spec(c) {
            None => Err(StoreError::InvalidData),
            Some(v) => Ok(v),
        },
    }
}

/// The ids of a `groups` file; an absent file holds none.
pub open spec fn groups_of(contents: Option<Seq<char>>) -> Option<Seq<u32>> {
    match contents {
        None => Some(Seq::empty()),
        Some(t) => parse_list_spec(t),
    }
}

/// The id that a `uid`, `gid` or `group` link names: the decimal final
/// component of its target. `InvalidData` when there is no final component
/// or it is not a decimal that fits in 32 bits.
pub fn id_from_link(target: &str) -> (r: Result<u32, StoreError>)
    ensures
        r == id_link_spec(target@),
{
    match file_name(target) {
        None => Err(StoreError::InvalidData),
        Some(c) => match parse_decimal(c.as_str()) {
            None => Err(StoreError::InvalidData),
            Some(v) => Ok(v),
        },
    }
}

/// The login name that a `name` link names: the final component of its
/// target. `InvalidData` when there is none.
pub fn name_from_link(target: &str) -> (r: Result<String, StoreError>)
    ensures
        match file_name_spec(target@) {
            None => r == Err::<String, StoreError>(StoreError::InvalidData),
            Some(c) => r matches Ok(v) && v@ == c,
        },
{
    match file_name(target) {
        None => Err(StoreError::InvalidData),
        Some(c) => Ok(c),
    }
}

/// The supplementary gids held in the `groups` file's text (`None`: no
/// file, which holds none). `InvalidData` when the text is not a list.
pub fn groups_from_file(contents: Option<&str>) -> (r: Result<Vec<u32>, StoreError>)
    ensures
        match groups_of(
            match contents {
                None => None,
                Some(t) => Some(t@),
            },
        ) {
            Some(l) => r matches Ok(v) && v@ == l,
            None => r == Err::<Vec<u32>, StoreError>(StoreError::InvalidData),
        },
{
    match contents {
        None => Ok(Vec::new()),
        Some(t) => parse_id_list(t),
    }
}

/// The `groups` file's text once `g` is added: the ids ascending, each once.
pub fn groups_file_with(contents: Option<&str>, g: u32) -> (r: Result<String, StoreError>)
    ensures
        match groups_of(
            match contents {
                None => None,
                Some(t) => Some(t@),
            },
        ) {
            Some(l) => r matches Ok(v) && exists|a: Seq<u32>| is_added(l, g, a) && v@ == render_spec(a),
            None => r == Err::<String, StoreError>(StoreError::InvalidData),
        },
{
    let ids = match groups_from_file(contents) {
        Err(e) => return Err(e),
        Ok(ids) => ids,
    };
    let added = with_id_added(&ids, g);
    let r = render_id_list(&added);
    assert(is_added(ids@, g, added@));
    Ok(r)
}

/// The `groups` file's text once `g` is removed; the other ids keep their
/// order.
pub fn groups_file_without(contents: Option<&str>, g: u32) -> (r: Result<String, StoreError>)
    ensures
        match groups_of(
            match contents {
                None => None,
                Some(t) => Some(t@),
            },
        ) {
            Some(l) => r matches Ok(v) && v@ == render_spec(remove_spec(l, g)),
            None => r == Err::<String, StoreError>(StoreError::InvalidData),
        },
{
    let ids = match groups_from_file(contents) {
        Err(e) => return Err(e),
        Ok(ids) => ids,
    };
    let removed = with_id_removed(&ids, g);
    Ok(render_id_list(&removed))
}

impl UserHandle {
    /// The account directory of `uid` under the accounts root `users`:
    /// `<users>/<uid>`.
    pub fn from_uid_under(users: &str, uid: u32) -> (r: UserHandle)
        ensures
            r@ == join_spec(users@, dec_chars(uid as nat)),
    {
        let d = decimal(uid);
        UserHandle { path: join_path(users, d.as_str()) }
    }

    /// The account directory of `uid` under the default root: `USERS/<uid>`.
    pub fn from_uid(uid: u32) -> (r: UserHandle)
        ensures
            r@ == join_spec(USERS@, dec_chars(uid as nat)),
    {
        UserHandle::from_uid_under(USERS, uid)
    }

    /// The account directory of `uid` under the root `chroot`:
    /// `<chroot>/<USERS without its leading separator>/<uid>`.
    pub fn from_uid_in(uid: u32, chroot: &str) -> (r: UserHandle)
        ensures
            r@ == join_spec(join_spec(chroot@, strip_root_spec(USERS@)), dec_chars(uid as nat)),
    {
        let base = chrooted(chroot, USERS);
        UserHandle::from_uid_under(base.as_str(), uid)
    }

    /// The entry `<users>/<name>` that binds a login name to its account.
    pub fn name_entry_under(users: &str, name: &str) -> (r: String)
        ensures
            r@ == join_spec(users@, name@),
    {
        join_path(users, name)
    }

    /// The entry `USERS/<name>` under the default root.
    pub fn name_entry(name: &str) -> (r: String)
        ensures
            r@ == join_spec(USERS@, name@),
    {
        UserHandle::name_entry_under(USERS, name)
    }

    /// The entry `<chroot>/<USERS without its leading separator>/<name>`.
    pub fn name_entry_in(name: &str, chroot: &str) -> (r: String)
        ensures
            r@ == join_spec(join_spec(chroot@, strip_root_spec(USERS@)), name@),
    {
        let base = chrooted(chroot, USERS);
        UserHandle::name_entry_under(base.as_str(), name)
    }

    /// The account reached from a name entry: the entry's link target, or
    /// the entry itself when it is not a link.
    pub fn from_name_entry(entry: String, target: Option<String>) -> (r: UserHandle)
        ensures
            r@ == match target {
                Some(t) => t@,
                None => entry@,
            },
    {
        match target {
            Some(t) => UserHandle { path: t },
            None => UserHandle { path: entry },
        }
    }

    /// The account directory.
    pub fn user_dir(&self) -> (r: &str)
        ensures
            r@ == self@,
    {
        self.path.as_str()
    }

    /// The path of the entry `file` in the account directory.
    pub fn entry(&self, file: &str) -> (r: String)
        ensures
            r@ == join_spec(self@, file@),
    {
        join_path(self.path.as_str(), file)
    }

    /// The name link that `set_name(name)` installs beside the account
    /// directory, and that a later rename removes.
    pub fn name_link_path(&self, name: &str) -> (r: String)
        ensures
            r@ == join_spec(parent_spec(self@), name@),
    {
        let p = parent(self.path.as_str());
        join_path(p.as_str(), name)
    }

    /// The target of the `group` link for the primary group `group`, under
    /// the groups root `groups`: `<groups>/<group>`.
    pub fn group_link_target_under(groups: &str, group: u32) -> (r: String)
        ensures
            r@ == join_spec(groups@, dec_chars(group as nat)),
    {
        let d = decimal(group);
        join_path(groups, d.as_str())
    }

    /// The target of the `group` link under the default root: `GROUPS/<group>`.
    pub fn group_link_target(group: u32) -> (r: String)
        ensures
            r@ == join_spec(GROUPS@, dec_chars(group as nat)),
    {
        UserHandle::group_link_target_under(GROUPS, group)
    }
}

proof fn lemma_dec_digits(n: nat)
    ensures
        dec_chars(n).len() > 0,
        forall|i: int| 0 <= i < dec_chars(n).len() ==> '0' <= #[trigger] dec_chars(n)[i] <= '9',
    decreases n,
{
    if n >= 10 {
        lemma_dec_digits(n / 10);
        assert(forall|i: int| 0 <= i < dec_chars(n / 10).len() ==> dec_chars(n)[i] == dec_chars(n / 10)[i]);
    }
}

proof fn lemma_tail_after_separator(a: Seq<char>, b: Seq<char>)
    requires
        forall|i: int| 0 <= i < b.len() ==> b[i] != '/',
    ensures
        tail_spec(a + seq!['/'] + b) == b,
    decreases b.len(),
{
    let s = a + seq!['/'] + b;
    if b.len() == 0 {
        assert(s.last() == '/');
    } else {
        lemma_tail_after_separator(a, b.drop_last());
        assert(s.drop_last() =~= a + seq!['/'] + b.drop_last());
        assert(b.drop_last().push(b.last()) =~= b);
    }
}

/// Under an accounts root `users` without a trailing separator, the link
/// that `set_name(name)` installs for the account of `uid` is the entry that
/// a lookup by `name` reads, so both lookups reach the directory
/// `<users>/<uid>`.
pub proof fn lemma_name_binding(users: Seq<char>, uid: u32, name: Seq<char>)
    requires
        users.len() > 0,
        users.last() != '/',
    ensures
        join_spec(parent_spec(join_spec(users, dec_chars(uid as nat))), name) == join_spec(
            users,
            name,
        ),
{
    let r = users;
    let d = dec_chars(uid as nat);
    lemma_dec_digits(uid as nat);
    let s = join_spec(r, d);
    assert(s == r + seq!['/'] + d);
    assert(trim_spec(s) == s);
    lemma_tail_after_separator(r, d);
    let p = s.subrange(0, s.len() - d.len());
    assert(p =~= r.push('/'));
    assert(p.drop_last() =~= r);
    assert(trim_spec(r) == r);
    assert(trim_spec(p) == r);
}

} // verus!
