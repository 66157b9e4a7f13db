//! The order of parsed files: by path, as strings compare, byte by byte.

use vstd::prelude::*;
use vstd::multiset::Multiset;
use vstd::seq_lib::{to_multiset_build, to_multiset_remove};
use vstd::string::StringSliceAdditionalSpecFns;
use vstd::utf8::encode_utf8;
use crate::model::ApiDef;

verus! {

/// Whether `a` from `i` on stands before `b` from `i` on, or is equal to it, in the
/// order of the bytes; the shorter of two that agree stands first.
pub open spec fn bytes_le_from(a: Seq<u8>, b: Seq<u8>, i: int) -> bool
    decreases a.len() - i,
{
    if i < 0 || i >= a.len() {
        true
    } else if i >= b.len() {
        false
    } else if a[i] != b[i] {
        a[i] < b[i]
    } else {
        bytes_le_from(a, b, i + 1)
    }
}

/// Whether the path `a` stands before the path `b`, or is equal to it: the order of
/// strings, which compares their UTF-8 bytes.
pub open spec fn path_le(a: Seq<char>, b: Seq<char>) -> bool {
    bytes_le_from(encode_utf8(a), encode_utf8(b), 0)
}

/// Whether the files stand in the order of their paths.
pub open spec fn sorted_by_filename(defs: Seq<ApiDef>) -> bool {
    forall|i: int, j: int|
        0 <= i < j < defs.len() ==> path_le(
            (#[trigger] defs[i]).filename@,
            (#[trigger] defs[j]).filename@,
        )
}

/// Of two byte strings that agree before `i`, one stands before the other.
proof fn lemma_bytes_total(a: Seq<u8>, b: Seq<u8>, i: int)
    requires
        0 <= i,
    ensures
        bytes_le_from(a, b, i) || bytes_le_from(b, a, i),
    decreases a.len() - i,
{
    if i < a.len() && i < b.len() && a[i] == b[i] {
        lemma_bytes_total(a, b, i + 1);
    }
}

/// The order of the bytes is transitive.
proof fn lemma_bytes_transitive(a: Seq<u8>, b: Seq<u8>, c: Seq<u8>, i: int)
    requires
        0 <= i,
        bytes_le_from(a, b, i),
        bytes_le_from(b, c, i),
    ensures
        bytes_le_from(a, c, i),
    decreases a.len() - i,
{
    if i < a.len() && i < b.len() && i < c.len() && a[i] == b[i] && b[i] == c[i] {
        lemma_bytes_transitive(a, b, c, i + 1);
    }
}

/// Whether the path `a` stands before the path `b`, or is equal to it.
pub fn path_before(a: &str, b: &str) -> (res: bool)
    ensures
        res == path_le(a@, b@),
{
    let x = a.as_bytes();
    let y = b.as_bytes();
    let mut i: usize = 0;
    while i < x.len()
        invariant
            i <= x.len(),
            x@ == encode_utf8(a@),
            y@ == encode_utf8(b@),
            bytes_le_from(x@, y@, i as int) == path_le(a@, b@),
        decreases x.len() - i,
    {
        if i >= y.len() {
            return false;
        }
        if x[i] != y[i] {
            return x[i] < y[i];
        }
        i += 1;
    }
    true
}

/// The files in the order of their paths.
pub fn sort_by_filename(defs: Vec<ApiDef>) -> (sorted: Vec<ApiDef>)
    ensures
        sorted@.to_multiset() == defs@.to_multiset(),
        sorted_by_filename(sorted@),
{
    let mut rest = defs;
    let mut sorted: Vec<ApiDef> = Vec::new();
    assert(sorted@.to_multiset().add(rest@.to_multiset()) =~= defs@.to_multiset()) by {
        sorted@.to_multiset_ensures();
    }
    while rest.len() > 0
        invariant
            sorted@.to_multiset().add(rest@.to_multiset()) == defs@.to_multiset(),
            sorted_by_filename(sorted@),
        decreases rest.len(),
    {
        let ghost before = rest@;
        let ghost placed = sorted@;
        let def = rest.pop().unwrap();
        proof {
            assert(before =~= rest@.push(def));
            to_multiset_build(rest@, def);
        }
        
        let mut at: usize = 0;
        while at < sorted.len() && !path_before(
            def.filename.as_str(),
            sorted[at].filename.as_str(),
        )
            invariant
                at <= sorted.len(),
                sorted@ == placed,
                forall|k: int|
                    0 <= k < at ==> path_le((#[trigger] sorted@[k]).filename@, def.filename@),
            decreases sorted.len() - at,
        {
            proof {
                lemma_bytes_total(
                    encode_utf8(def.filename@),
                    encode_utf8(sorted@[at as int].filename@),
                    0,
                );
            }
            at += 1;
        }
        let ghost after = placed.insert(at as int, def);
        proof {
            assert forall|k: int| at <= k < placed.len() implies path_le(
                def.filename@,
                (#[trigger] placed[k]).filename@,
            ) by {
                let x = encode_utf8(def.filename@);
                let y = encode_utf8(placed[at as int].filename@);
                let z = encode_utf8(placed[k].filename@);
                if at < k {
                    lemma_bytes_transitive(x, y, z, 0);
                }
            }
            assert(after.remove(at as int) =~= placed);
            to_multiset_remove(after, at as int);
            after.to_multiset_ensures();
            assert(after.to_multiset() =~= placed.to_multiset().insert(def));
            assert forall|i: int, j: int| 0 <= i < j < after.len() implies path_le(
                (#[trigger] after[i]).filename@,
                (#[trigger] after[j]).filename@,
            ) by {
                if i < at && j > at {
                    assert(after[i] == placed[i]);
                    assert(after[j] == placed[j - 1]);
                } else if i == at {
                    assert(after[j] == placed[j - 1]);
                } else if j == at {
                    assert(after[i] == placed[i]);
                } else if j < at {
                    assert(after[i] == placed[i] && after[j] == placed[j]);
                } else {
                    assert(after[i] == placed[i - 1] && after[j] == placed[j - 1]);
                }
            }
        }
        sorted.insert(at, def);
        assert(sorted@ == after);
        assert(sorted@.to_multiset().add(rest@.to_multiset()) =~= placed.to_multiset().add(
            before.to_multiset(),
        ));
    }
    assert(rest@.to_multiset() =~= Multiset::empty()) by {
        rest@.to_multiset_ensures();
    }
    assert(sorted@.to_multiset().add(rest@.to_multiset()) =~= sorted@.to_multiset());
    sorted
}

} // verus!
