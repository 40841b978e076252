use vstd::prelude::*;

use crate::dirs::{decimal, join_path, join_spec, parent, parent_spec, GROUPS};
use crate::idlist::dec_chars;

verus! {

/// A group directory: `GROUPS/<gid>`, or wherever a name link led.
#[derive(Clone, Debug)]
pub struct GroupHandle {
    path: String,
}

impl View for GroupHandle {
    type V = Seq<char>;

    closed spec fn view(&self) -> Seq<char> {
        self.path@
    }
}

impl GroupHandle {
    /// The group directory of `gid` under the groups root `groups`:
    /// `<groups>/<gid>`.
    pub fn from_uid_under(groups: &str, gid: u32) -> (r: GroupHandle)
        ensures
            r@ == join_spec(groups@, dec_chars(gid as nat)),
    {
        let d = decimal(gid);
        GroupHandle { path: join_path(groups, d.as_str()) }
    }

    /// The group directory of `gid` under the default root: `GROUPS/<gid>`.
    pub fn from_uid(gid: u32) -> (r: GroupHandle)
        ensures
            r@ == join_spec(GROUPS@, dec_chars(gid as nat)),
    {
        GroupHandle::from_uid_under(GROUPS, gid)
    }

    /// The entry `<groups>/<name>` that binds a group name to its directory.
    pub fn name_entry_under(groups: &str, name: &str) -> (r: String)
        ensures
            r@ == join_spec(groups@, name@),
    {
        join_path(groups, name)
    }

    /// The entry `GROUPS/<name>` under the default root.
    pub fn name_entry(name: &str) -> (r: String)
        ensures
            r@ == join_spec(GROUPS@, name@),
    {
        GroupHandle::name_entry_under(GROUPS, name)
    }

    /// The group reached through the link target of a name entry.
    pub fn from_link_target(target: String) -> (r: GroupHandle)
        ensures
            r@ == target@,
    {
        GroupHandle { path: target }
    }

    /// The group directory.
    pub fn user_dir(&self) -> (r: &str)
        ensures
            r@ == self@,
    {
        self.path.as_str()
    }

    /// The path of the entry `file` in the group directory.
    pub fn entry(&self, file: &str) -> (r: String)
        ensures
            r@ == join_spec(self@, file@),
    {
        join_path(self.path.as_str(), file)
    }

    /// The name link that `set_name(name)` installs beside the group
    /// directory.
    pub fn name_link_path(&self, name: &str) -> (r: String)
        ensures
            r@ == join_spec(parent_spec(self@), name@),
    {
        let p = parent(self.path.as_str());
        join_path(p.as_str(), name)
    }
}

} // verus!
