//! Decisions over a repository's remotes.  Listing the remotes is git work
//! done outside the library; the library receives their names and URLs as
//! plain values and answers the lookups.

use vstd::prelude::*;

verus! {

use crate::text;

/// One remote as the lookup logic sees it: a name and a URL, either of
/// which the repository may leave unset or non-decodable.
pub struct RemoteInfo {
    pub name: Option<String>,
    pub url: Option<String>,
}

/// Does the remote carry exactly this URL?
pub open spec fn remote_has_url(r: RemoteInfo, url: Seq<char>) -> bool {
    match r.url {
        Some(u) => u@ == url,
        None => false,
    }
}

/// Does the remote carry exactly this name?
pub open spec fn remote_has_name(r: RemoteInfo, name: Seq<char>) -> bool {
    match r.name {
        Some(n) => n@ == name,
        None => false,
    }
}

/// The name of the first remote with this URL: nothing when no remote
/// matches, and nothing too when the matching remote has no readable name.
pub open spec fn spec_name_from_url(rs: Seq<RemoteInfo>, url: Seq<char>) -> Option<Seq<char>>
    decreases rs.len(),
{
    if rs.len() == 0 {
        None
    } else if remote_has_url(rs[0], url) {
        match rs[0].name {
            Some(n) => Some(n@),
            None => None,
        }
    } else {
        spec_name_from_url(rs.drop_first(), url)
    }
}

/// The URL of the first remote with this name, flattened the same way.
pub open spec fn spec_url_from_name(rs: Seq<RemoteInfo>, name: Seq<char>) -> Option<Seq<char>>
    decreases rs.len(),
{
    if rs.len() == 0 {
        None
    } else if remote_has_name(rs[0], name) {
        match rs[0].url {
            Some(u) => Some(u@),
            None => None,
        }
    } else {
        spec_url_from_name(rs.drop_first(), name)
    }
}

/// Is one of these names exactly `remote_name`?
pub fn has_remote(remote_names: &Vec<String>, remote_name: &str) -> (r: bool)
    ensures
        r == exists|i: int|
            0 <= i < remote_names@.len() && (#[trigger] remote_names@[i])@ == remote_name@,
{
    let target = text::chars_of(remote_name);
    let mut i: usize = 0;
    while i < remote_names.len()
        invariant
            i <= remote_names@.len(),
            target@ == remote_name@,
            forall|j: int| 0 <= j < i ==> (#[trigger] remote_names@[j])@ != remote_name@,
        decreases remote_names@.len() - i,
    {
        if text::chars_eq_str(&target, remote_names[i].as_str()) {
            return true;
        }
        i = i + 1;
    }
    false
}

/// Is one of these URLs exactly `remote_url`?
pub fn has_remote_url(remote_urls: &Vec<String>, remote_url: &str) -> (r: bool)
    ensures
        r == exists|i: int|
            0 <= i < remote_urls@.len() && (#[trigger] remote_urls@[i])@ == remote_url@,
{
    let target = text::chars_of(remote_url);
    let mut i: usize = 0;
    while i < remote_urls.len()
        invariant
            i <= remote_urls@.len(),
            target@ == remote_url@,
            forall|j: int| 0 <= j < i ==> (#[trigger] remote_urls@[j])@ != remote_url@,
        decreases remote_urls@.len() - i,
    {
        if text::chars_eq_str(&target, remote_urls[i].as_str()) {
            return true;
        }
        i = i + 1;
    }
    false
}

/// The name of the first remote carrying `remote_url`, if any.
pub fn remote_name_from_url(remotes: &Vec<RemoteInfo>, remote_url: &str) -> (r: Option<String>)
    ensures
        match r {
            Some(n) => spec_name_from_url(remotes@, remote_url@) == Some(n@),
            None => spec_name_from_url(remotes@, remote_url@) is None,
        },
{
    let target = text::chars_of(remote_url);
    let mut i: usize = 0;
    proof {
        assert(remotes@.skip(0) =~= remotes@);
    }
    while i < remotes.len()
        invariant
            i <= remotes@.len(),
            target@ == remote_url@,
            spec_name_from_url(remotes@, remote_url@) == spec_name_from_url(
                remotes@.skip(i as int),
                remote_url@,
            ),
        decreases remotes@.len() - i,
    {
        proof {
            assert(remotes@.skip(i as int)[0] == remotes@[i as int]);
            assert(remotes@.skip(i as int).drop_first() =~= remotes@.skip(i + 1));
        }
        let hit = match &remotes[i].url {
            Some(u) => {
                let uc = text::chars_of(u.as_str());
                text::chars_eq_str(&uc, remote_url)
            },
            None => false,
        };
        if hit {
            return match &remotes[i].name {
                Some(n) => Some(n.clone()),
                None => None,
            };
        }
        i = i + 1;
    }
    None
}

/// The URL of the first remote called `remote_name`, if any.
pub fn remote_url_from_name(remotes: &Vec<RemoteInfo>, remote_name: &str) -> (r: Option<String>)
    ensures
        match r {
            Some(u) => spec_url_from_name(remotes@, remote_name@) == Some(u@),
            None => spec_url_from_name(remotes@, remote_name@) is None,
        },
{
    let target = text::chars_of(remote_name);
    let mut i: usize = 0;
    proof {
        assert(remotes@.skip(0) =~= remotes@);
    }
    while i < remotes.len()
        invariant
            i <= remotes@.len(),
            target@ == remote_name@,
            spec_url_from_name(remotes@, remote_name@) == spec_url_from_name(
                remotes@.skip(i as int),
                remote_name@,
            ),
        decreases remotes@.len() - i,
    {
        proof {
            assert(remotes@.skip(i as int)[0] == remotes@[i as int]);
            assert(remotes@.skip(i as int).drop_first() =~= remotes@.skip(i + 1));
        }
        let hit = match &remotes[i].name {
            Some(n) => {
                let nc = text::chars_of(n.as_str());
                text::chars_eq_str(&nc, remote_name)
            },
            None => false,
        };
        if hit {
            return match &remotes[i].url {
                Some(u) => Some(u.clone()),
                None => None,
            };
        }
        i = i + 1;
    }
    None
}

} // verus!
