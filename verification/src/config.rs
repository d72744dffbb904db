use vstd::prelude::*;
use vstd::string::StrSliceExecFns;

verus! {

/// Whether a file name designates a process-spec document: only files whose
/// name ends in the spec-format extension `.yml` are considered.
pub open spec fn is_spec_file_name(s: Seq<char>) -> bool {
    &&& s.len() >= 4
    &&& s[s.len() - 4] == '.'
    &&& s[s.len() - 3] == 'y'
    &&& s[s.len() - 2] == 'm'
    &&& s[s.len() - 1] == 'l'
}

/// Decides whether a directory entry's file name is a process-spec document.
/// The host lists the spec directory and loads exactly the files accepted
/// here.
pub fn is_config_file_name(name: &str) -> (b: bool)
    ensures
        b == is_spec_file_name(name@),
{
    let n = name.unicode_len();
    if n < 4 {
        return false;
    }
    let c0 = name.get_char(n - 4);
    let c1 = name.get_char(n - 3);
    let c2 = name.get_char(n - 2);
    let c3 = name.get_char(n - 1);
    c0 == '.' && c1 == 'y' && c2 == 'm' && c3 == 'l'
}

} // verus!
