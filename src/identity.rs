use vstd::prelude::*;

verus! {

/// The extended-length prefix that some platforms put before canonical paths.
pub open spec fn verbatim_prefix() -> Seq<char> {
    seq!['\\', '\\', '?', '\\']
}

pub open spec fn has_verbatim_prefix(s: Seq<char>) -> bool {
    s.len() >= 4 && s.subrange(0, 4) == verbatim_prefix()
}

/// The extended-length prefix of a network (UNC) path.
pub open spec fn verbatim_unc_prefix() -> Seq<char> {
    seq!['\\', '\\', '?', '\\', 'U', 'N', 'C', '\\']
}

pub open spec fn has_verbatim_unc_prefix(s: Seq<char>) -> bool {
    s.len() >= 8 && s.subrange(0, 8) == verbatim_unc_prefix()
}

/// The string handed to the caller for a canonical identity. On a platform
/// that decorates canonical paths, an extended-length network path
/// `\\?\UNC\server\share\..` becomes `\\server\share\..`, and any other
/// extended-length path loses its `\\?\` prefix.
pub open spec fn display_form(identity: Seq<char>, windows: bool) -> Seq<char> {
    if windows && has_verbatim_unc_prefix(identity) {
        seq!['\\', '\\'] + identity.subrange(8, identity.len() as int)
    } else if windows && has_verbatim_prefix(identity) {
        identity.subrange(4, identity.len() as int)
    } else {
        identity
    }
}

fn starts_with_chars(s: &str, n: usize, prefix: &[char]) -> (r: bool)
    requires
        n == s@.len(),
    ensures
        r == (n >= prefix@.len() && s@.subrange(0, prefix@.len() as int) == prefix@),
{
    let m = prefix.len();
    if n < m {
        return false;
    }
    let mut i: usize = 0;
    while i < m
        invariant
            m == prefix@.len(),
            m <= n,
            n == s@.len(),
            i <= m,
            forall|j: int| 0 <= j < i ==> s@[j] == prefix@[j],
        decreases m - i,
    {
        if s.get_char(i) != prefix[i] {
            assert(s@.subrange(0, m as int)[i as int] != prefix@[i as int]);
            return false;
        }
        i = i + 1;
    }
    assert(s@.subrange(0, m as int) =~= prefix@);
    true
}

/// Renders a canonical identity for the caller.
pub fn normalize_path_string(identity: &str, windows: bool) -> (r: String)
    ensures
        r@ == display_form(identity@, windows),
{
    let n = identity.unicode_len();
    let unc = ['\\', '\\', '?', '\\', 'U', 'N', 'C', '\\'];
    let plain = ['\\', '\\', '?', '\\'];
    assert(unc@ =~= verbatim_unc_prefix());
    assert(plain@ =~= verbatim_prefix());
    if windows && starts_with_chars(identity, n, &unc) {
        let lead = String::from_str("\\\\");
        proof {
            reveal_strlit("\\\\");
        }
        assert(lead@ =~= seq!['\\', '\\']);
        lead.concat(identity.substring_char(8, n))
    } else if windows && starts_with_chars(identity, n, &plain) {
        String::from_str(identity.substring_char(4, n))
    } else {
        String::from_str(identity)
    }
}

} // verus!
