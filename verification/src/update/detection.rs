//! Install method inferred from where the binary lives.
use super::InstallMethod;
use vstd::prelude::*;

verus! {

/// Whether the path text lies in a system binary directory.
pub open spec fn in_system_bin(path: Seq<char>) -> bool {
    ("/usr/bin/"@).is_prefix_of(path) || ("/usr/sbin/"@).is_prefix_of(path)
}

/// Whether `s` starts with `prefix`.
fn has_prefix(s: &str, prefix: &str) -> (r: bool)
    ensures
        r == prefix@.is_prefix_of(s@),
{
    let a = crate::text::str_chars(s);
    let p = crate::text::str_chars(prefix);
    if p.len() > a.len() {
        return false;
    }
    let mut i: usize = 0;
    while i < p.len()
        invariant
            p@.len() <= a@.len(),
            a@ == s@,
            p@ == prefix@,
            i <= p@.len(),
            forall|j: int| 0 <= j < i ==> p@[j] == a@[j],
        decreases p@.len() - i,
    {
        if p[i] != a[i] {
            assert(a@.subrange(0, p@.len() as int)[i as int] == a@[i as int]);
            return false;
        }
        i = i + 1;
    }
    assert(p@ =~= a@.subrange(0, p@.len() as int));
    true
}

/// Detect install method based on the binary path (its text, lossily decoded).
///
/// Binaries in system directories (/usr/bin, /usr/sbin) are likely
/// system-managed.
pub fn detect_from_path(path: &str) -> (r: InstallMethod)
    ensures
        in_system_bin(path@) ==> (r matches InstallMethod::PackageManager { name, upgrade_cmd } && name@
            == "system"@ && upgrade_cmd@ == "your system package manager"@),
        !in_system_bin(path@) ==> r is SelfManaged,
{
    if has_prefix(path, "/usr/bin/") || has_prefix(path, "/usr/sbin/") {
        return InstallMethod::PackageManager {
            name: "system".to_string(),
            upgrade_cmd: "your system package manager".to_string(),
        };
    }
    InstallMethod::SelfManaged
}

} // verus!
