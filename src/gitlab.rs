//! Decisions taken around single platform calls: the namespace a project is
//! imported into, the e-mail a created user receives, and what to do with an
//! export's status.

use crate::types::{ExportStatus, SourceProject, SourceUser};
use vstd::prelude::*;

verus! {

/// Everything before the last `/` of `s`, or nothing where `s` has no `/`.
pub open spec fn before_last_slash(s: Seq<char>) -> Seq<char>
    decreases s.len(),
{
    if s.len() == 0 {
        s
    } else if s.last() == '/' {
        s.drop_last()
    } else {
        before_last_slash(s.drop_last())
    }
}

/// `s` without the `/` characters it starts with.
pub open spec fn strip_leading_slashes(s: Seq<char>) -> Seq<char>
    decreases s.len(),
{
    if s.len() > 0 && s[0] == '/' {
        strip_leading_slashes(s.drop_first())
    } else {
        s
    }
}

/// The namespace of a full project path: the path without its last segment,
/// with no leading `/`.
pub open spec fn namespace_of(path: Seq<char>) -> Seq<char> {
    strip_leading_slashes(before_last_slash(path))
}

/// The namespace that an imported project is placed in on the target.
pub fn parse_namespace(project: &SourceProject) -> (r: String)
    ensures
        r@ == namespace_of(project.path_with_namespace@),
{
    let s: &str = project.path_with_namespace.as_str();
    let ghost full = s@;
    let n: usize = s.unicode_len();
    let mut i: usize = n;
    assert(full.subrange(0, n as int) =~= full);
    while i > 0 && s.get_char(i - 1) != '/'
        invariant
            i <= n,
            n == full.len(),
            s@ == full,
            before_last_slash(full) == before_last_slash(full.subrange(0, i as int)),
        decreases i,
    {
        assert(full.subrange(0, i as int).drop_last() =~= full.subrange(0, i - 1));
        i = i - 1;
    }
    let end: usize = if i == 0 {
        0
    } else {
        i - 1
    };
    proof {
        if i == 0 {
            assert(full.subrange(0, 0) =~= Seq::<char>::empty());
        } else {
            assert(full.subrange(0, i as int).drop_last() =~= full.subrange(0, end as int));
        }
        assert(before_last_slash(full) == full.subrange(0, end as int));
    }
    let mut k: usize = 0;
    while k < end && s.get_char(k) == '/'
        invariant
            k <= end,
            end <= n,
            n == full.len(),
            s@ == full,
            namespace_of(full) == strip_leading_slashes(full.subrange(k as int, end as int)),
        decreases end - k,
    {
        assert(full.subrange(k as int, end as int).drop_first() =~= full.subrange(
            k + 1,
            end as int,
        ));
        k = k + 1;
    }
    proof {
        if k == end {
            assert(full.subrange(k as int, end as int) =~= Seq::<char>::empty());
        }
    }
    let part: &str = s.substring_char(k, end);
    String::from_str(part)
}

/// The address given to a user whose username has no entry in the mapping.
pub open spec fn fallback_email(username: Seq<char>) -> Seq<char> {
    username + "@test.com"@
}

/// The address that the last entry of `mapping` for `username` gives, if any.
pub open spec fn mapped_email(mapping: Seq<(String, String)>, username: Seq<char>) -> Option<
    Seq<char>,
>
    decreases mapping.len(),
{
    if mapping.len() == 0 {
        None
    } else if mapping.last().0@ == username {
        Some(mapping.last().1@)
    } else {
        mapped_email(mapping.drop_last(), username)
    }
}

/// The e-mail address that a user is created with on the target.
pub open spec fn email_of(mapping: Seq<(String, String)>, username: Seq<char>) -> Seq<char> {
    match mapped_email(mapping, username) {
        Some(e) => e,
        None => fallback_email(username),
    }
}

/// Picks the e-mail address for `user` from a username-to-address mapping,
/// falling back to an address derived from the username.
pub fn email_for_user(user: &SourceUser, mapping: &Vec<(String, String)>) -> (r: String)
    ensures
        r@ == email_of(mapping@, user.username@),
{
    let mut i: usize = mapping.len();
    assert(mapping@.subrange(0, i as int) =~= mapping@);
    while i > 0
        invariant
            i <= mapping.len(),
            mapped_email(mapping@, user.username@) == mapped_email(
                mapping@.subrange(0, i as int),
                user.username@,
            ),
        decreases i,
    {
        assert(mapping@.subrange(0, i as int).drop_last() =~= mapping@.subrange(0, i - 1));
        if mapping[i - 1].0 == user.username {
            return mapping[i - 1].1.clone();
        }
        i = i - 1;
    }
    assert(mapping@.subrange(0, 0) =~= Seq::<(String, String)>::empty());
    let mut email: String = user.username.clone();
    email.append("@test.com");
    email
}

/// What to do after reading a project's export status.
#[derive(Debug)]
pub enum ExportStep {
    /// No export was ever started: there is nothing to download.
    Skip,
    /// The export is still being prepared: wait and read the status again.
    Wait,
    /// The export is ready to be downloaded.
    Download,
}

/// The export state in which nothing was ever requested.
pub open spec fn not_started() -> Seq<char> {
    "none"@
}

/// The export state in which the archive is ready.
pub open spec fn finished() -> Seq<char> {
    "finished"@
}

/// Decides the next step of waiting for an export. Only the first status read
/// may end the wait without a download.
pub fn export_step(status: &ExportStatus, first_poll: bool) -> (r: ExportStep)
    ensures
        r == (if first_poll && status.export_status@ == not_started() {
            ExportStep::Skip
        } else if status.export_status@ == finished() {
            ExportStep::Download
        } else {
            ExportStep::Wait
        }),
{
    let none = String::from_str("none");
    let done = String::from_str("finished");
    if first_poll && status.export_status == none {
        ExportStep::Skip
    } else if status.export_status == done {
        ExportStep::Download
    } else {
        ExportStep::Wait
    }
}

} // verus!
