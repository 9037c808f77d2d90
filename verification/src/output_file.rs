//! How output files for profile data are created safely.

use crate::text::parse_u32;
use vstd::prelude::*;
use vstd::string::StringExecFns;

verus! {

/// How an output file is opened.
#[derive(Clone, Copy, Debug, PartialEq, Eq, Structural)]
pub struct OpenPlan {
    pub write: bool,
    pub create: bool,
    pub truncate: bool,
    /// Whether a symlink in the final path component is refused.
    pub no_follow: bool,
    /// The permission bits of a newly created file.
    pub mode: u32,
}

impl OpenPlan {
    /// How a process opens an output file. A privileged one does not follow a symlink,
    /// so that it cannot be tricked into overwriting an arbitrary file by a symlink at
    /// a predictable path. A new file is readable by its owner alone, since profile
    /// data can reveal the internals of the profiled application.
    pub fn new(is_root: bool) -> (plan: OpenPlan)
        ensures
            plan.write && plan.create && plan.truncate,
            plan.no_follow == is_root,
            plan.mode == 0o600,
    {
        OpenPlan { write: true, create: true, truncate: true, no_follow: is_root, mode: 0o600 }
    }
}

/// Why an output file could not be created.
pub fn open_failure(path: &str, is_symlink: bool) -> (message: String)
    ensures
        message@ == if is_symlink {
            "Refusing to write through the symlink "@ + path@
                + " while running as root. Please give the real path, or `-` for standard output."@
        } else {
            "Failed to create output file "@ + path@
        },
{
    if is_symlink {
        let mut message: String = "Refusing to write through the symlink ".to_string();
        message.append(path);
        message.append(
            " while running as root. Please give the real path, or `-` for standard output.",
        );
        message
    } else {
        let mut message: String = "Failed to create output file ".to_string();
        message.append(path);
        message
    }
}

/// The user and the group that a sudo variable pair names.
pub open spec fn sudo_ids(uid: Option<Seq<char>>, gid: Option<Seq<char>>) -> Option<(u32, u32)> {
    match (uid, gid) {
        (Some(uid), Some(gid)) => match (
            crate::text::u32_numeral(uid),
            crate::text::u32_numeral(gid),
        ) {
            (Some(uid), Some(gid)) => Some((uid, gid)),
            _ => None,
        },
        _ => None,
    }
}

/// The characters of `s`, if it is there.
pub open spec fn text_of(s: Option<&str>) -> Option<Seq<char>> {
    match s {
        Some(s) => Some(s@),
        None => None,
    }
}

/// The user and the group to hand an output file to: those that invoked sudo, if the
/// process runs as root on behalf of another user.
pub fn sudo_owner(is_root: bool, sudo_uid: Option<&str>, sudo_gid: Option<&str>) -> (owner: Option<
    (u32, u32),
>)
    ensures
        owner == if is_root {
            sudo_ids(text_of(sudo_uid), text_of(sudo_gid))
        } else {
            None
        },
{
    if !is_root {
        return None;
    }
    match (sudo_uid, sudo_gid) {
        (Some(uid), Some(gid)) => match (parse_u32(uid), parse_u32(gid)) {
            (Some(uid), Some(gid)) => Some((uid, gid)),
            _ => None,
        },
        _ => None,
    }
}

/// Whoever invoked sudo owns the file: whatever user and group the two variables hold in
/// decimal, the file is handed to these.
pub proof fn sudo_user_owns_the_file(uid: u32, gid: u32, sudo_uid: &str, sudo_gid: &str)
    requires
        sudo_uid@ == crate::text::numeral(uid as nat, 10),
        sudo_gid@ == crate::text::numeral(gid as nat, 10),
    ensures
        sudo_ids(text_of(Some(sudo_uid)), text_of(Some(sudo_gid))) == Some((uid, gid)),
{
    crate::text::numeral_reads_back(uid);
    crate::text::numeral_reads_back(gid);
}

/// The file is handed to a user and a group exactly when both variables are there and
/// hold these numbers.
pub proof fn both_variables_name_the_owner(
    sudo_uid: Option<&str>,
    sudo_gid: Option<&str>,
    uid: u32,
    gid: u32,
)
    ensures
        sudo_ids(text_of(sudo_uid), text_of(sudo_gid)) == Some((uid, gid)) <==> {
            &&& sudo_uid matches Some(u) && crate::text::u32_numeral(u@) == Some(uid)
            &&& sudo_gid matches Some(g) && crate::text::u32_numeral(g@) == Some(gid)
        },
{
}

/// Why an output file could not be handed to its owner.
pub fn ownership_failure(path: &str) -> (message: String)
    ensures
        message@ == "Failed to change ownership of output file "@ + path@,
{
    let mut message: String = "Failed to change ownership of output file ".to_string();
    message.append(path);
    message
}

} // verus!
