//! Which MIDI port to connect to.

use crate::text::chars_of;
use vstd::prelude::*;

verus! {

/// Whether the letters `IAC` stand at `i` in `name`.
pub open spec fn iac_at(name: Seq<char>, i: int) -> bool {
    &&& 0 <= i
    &&& i + 3 <= name.len()
    &&& name[i] == 'I'
    &&& name[i + 1] == 'A'
    &&& name[i + 2] == 'C'
}

/// Whether `name` is that of an inter-application port: it holds `IAC`.
pub open spec fn names_iac(name: Seq<char>) -> bool {
    exists|i: int| iac_at(name, i)
}

/// Whether `k` is the first inter-application port among `names`.
pub open spec fn first_iac(names: Seq<Seq<char>>, k: int) -> bool {
    &&& 0 <= k < names.len()
    &&& names_iac(names[k])
    &&& forall|j: int| 0 <= j < k ==> !names_iac(#[trigger] names[j])
}

/// Whether `k` is the port to prefer among `names`: the first
/// inter-application port, or the first port where there is none such.
pub open spec fn is_preferred(names: Seq<Seq<char>>, k: int) -> bool {
    first_iac(names, k) || (k == 0 && names.len() > 0 && forall|j: int|
        0 <= j < names.len() ==> !names_iac(#[trigger] names[j]))
}

/// There is one port to prefer at most.
pub proof fn lemma_preferred_is_unique(names: Seq<Seq<char>>, a: int, b: int)
    requires
        is_preferred(names, a),
        is_preferred(names, b),
    ensures
        a == b,
{
    if first_iac(names, a) && first_iac(names, b) {
        if a < b {
            assert(!names_iac(names[a]));
        }
        if b < a {
            assert(!names_iac(names[b]));
        }
    }
}

/// Decides [`names_iac`].
pub fn is_iac_name(name: &str) -> (is_iac: bool)
    ensures
        is_iac == names_iac(name@),
{
    let chars: Vec<char> = chars_of(name);
    if chars.len() < 3 {
        return false;
    }
    let mut i: usize = 0;
    while i <= chars.len() - 3
        invariant
            chars@ == name@,
            chars.len() >= 3,
            i + 2 <= chars.len(),
            forall|j: int| 0 <= j < i ==> !iac_at(name@, j),
        decreases chars.len() - i,
    {
        if chars[i] == 'I' && chars[i + 1] == 'A' && chars[i + 2] == 'C' {
            assert(iac_at(name@, i as int));
            return true;
        }
        i += 1;
    }
    false
}

/// Chooses the port to connect to among the ports named.
pub fn preferred_port(names: &Vec<String>) -> (port: Option<usize>)
    ensures
        match port {
            Some(k) => is_preferred(Seq::new(names@.len(), |i: int| names@[i]@), k as int),
            None => names@.len() == 0,
        },
{
    let ghost views = Seq::new(names@.len(), |i: int| names@[i]@);
    if names.len() == 0 {
        return None;
    }
    let mut k: usize = 0;
    while k < names.len()
        invariant
            k <= names.len(),
            views == Seq::new(names@.len(), |i: int| names@[i]@),
            forall|j: int| 0 <= j < k ==> !names_iac(#[trigger] views[j]),
        decreases names.len() - k,
    {
        if is_iac_name(names[k].as_str()) {
            assert(first_iac(views, k as int));
            return Some(k);
        }
        k += 1;
    }
    Some(0)
}

} // verus!
