//! File resolution and backup naming. A declared file's template path is
//! resolved against the configuration root; its output path is used as
//! given. For backups, an output file's canonical path is flattened into a
//! single file name by joining its path segments with a separator byte, so
//! one flat backup directory can hold one copy per distinct output path.

use vstd::prelude::*;

use crate::bytes::push_range;

verus! {

/// The byte that separates directories in a path: an ASCII slash.
pub const PATH_SEPARATOR: u8 = 47;

/// The template path a declaration resolves to: the relative path joined
/// onto the configuration root, with an absolute path left as it is and a
/// separator inserted only where the root does not already end in one.
pub open spec fn spec_resolved_template_path(root: Seq<u8>, rel: Seq<u8>) -> Seq<u8> {
    if rel.len() > 0 && rel[0] == PATH_SEPARATOR {
        rel
    } else if root.len() == 0 {
        rel
    } else if root[root.len() - 1] == PATH_SEPARATOR {
        root + rel
    } else {
        root + seq![PATH_SEPARATOR] + rel
    }
}

/// Resolve a declared template path against the configuration root.
pub fn resolve_template_path(root: &Vec<u8>, rel: &Vec<u8>) -> (r: Vec<u8>)
    ensures
        r@ == spec_resolved_template_path(root@, rel@),
{
    if rel.len() > 0 && rel[0] == PATH_SEPARATOR {
        let r = crate::bytes::copy_bytes(rel);
        return r;
    }
    if root.len() == 0 {
        let r = crate::bytes::copy_bytes(rel);
        return r;
    }
    let mut r = crate::bytes::copy_bytes(root);
    if root[root.len() - 1] != PATH_SEPARATOR {
        r.push(PATH_SEPARATOR);
        proof {
            assert(r@ =~= root@ + seq![PATH_SEPARATOR]);
        }
    }
    push_range(&mut r, rel, 0, rel.len());
    proof {
        assert(rel@.subrange(0, rel@.len() as int) =~= rel@);
        assert(r@ =~= spec_resolved_template_path(root@, rel@));
    }
    r
}

/// The byte that joins path segments in a backup file name: an ASCII dot.
pub const BACKUP_SEPARATOR: u8 = 46;

/// The segments from index `i` on, each preceded by the separator.
pub open spec fn flat_tail(segs: Seq<Vec<u8>>, i: int) -> Seq<u8>
    decreases segs.len() - i,
{
    if i < 0 || i >= segs.len() {
        Seq::empty()
    } else {
        seq![BACKUP_SEPARATOR] + segs[i]@ + flat_tail(segs, i + 1)
    }
}

/// All segments joined with the separator; empty for no segments.
pub open spec fn flattened_name(segs: Seq<Vec<u8>>) -> Seq<u8> {
    if segs.len() == 0 {
        Seq::empty()
    } else {
        segs[0]@ + flat_tail(segs, 1)
    }
}

/// Join the path segments of an output file into its backup file name.
/// The same segments always yield the same name, so a later backup of the
/// same output path lands on (and overwrites) the same backup file.
pub fn backup_file_name(segs: &Vec<Vec<u8>>) -> (r: Vec<u8>)
    ensures
        r@ == flattened_name(segs@),
{
    let mut r: Vec<u8> = Vec::new();
    if segs.len() == 0 {
        proof {
            assert(r@ =~= flattened_name(segs@));
        }
        return r;
    }
    push_range(&mut r, &segs[0], 0, segs[0].len());
    proof {
        assert(segs@[0]@.subrange(0, segs@[0]@.len() as int) =~= segs@[0]@);
        assert(r@ =~= segs@[0]@);
    }
    let mut i: usize = 1;
    while i < segs.len()
        invariant
            1 <= i <= segs@.len(),
            flattened_name(segs@) == r@ + flat_tail(segs@, i as int),
        decreases segs@.len() - i,
    {
        let ghost r0 = r@;
        r.push(BACKUP_SEPARATOR);
        push_range(&mut r, &segs[i], 0, segs[i].len());
        proof {
            assert(segs@[i as int]@.subrange(0, segs@[i as int]@.len() as int) =~= segs@[
                i as int
            ]@);
            assert(r@ =~= r0 + seq![BACKUP_SEPARATOR] + segs@[i as int]@);
            assert(r0 + flat_tail(segs@, i as int) =~= (r0 + seq![BACKUP_SEPARATOR] + segs@[
                i as int
            ]@) + flat_tail(segs@, i + 1));
        }
        i += 1;
    }
    proof {
        assert(flattened_name(segs@) =~= r@);
    }
    r
}

} // verus!
