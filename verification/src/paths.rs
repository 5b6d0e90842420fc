//! File-system paths, held as text. Joining follows `Path::join`: an
//! absolute child replaces the base, otherwise one `/` separates them.
use vstd::prelude::*;

use crate::text::{append_str, chars_eq, chars_of, concat_str, split_char, split_chars, starts_with};

verus! {

/// `Path::join` on the textual form of two paths.
pub open spec fn join_path(base: Seq<char>, child: Seq<char>) -> Seq<char> {
    if child.len() > 0 && child[0] == '/' {
        child
    } else if base.len() == 0 {
        child
    } else if base.last() == '/' {
        base + child
    } else {
        base + seq!['/'] + child
    }
}

/// Joins `child` onto `base` as `Path::join` does.
pub fn path_join(base: &str, child: &str) -> (r: String)
    ensures
        r@ == join_path(base@, child@),
{
    let c0 = crate::text::chars_of(child);
    let b0 = crate::text::chars_of(base);
    if c0.len() > 0 && c0[0] == '/' {
        return child.to_owned();
    }
    if b0.len() == 0 {
        return child.to_owned();
    }
    if b0[b0.len() - 1] == '/' {
        return concat_str(base, child);
    }
    let mut r = concat_str(base, "/");
    append_str(&mut r, child);
    proof {
        reveal_strlit("/");
        assert(r@ =~= base@ + seq!['/'] + child@);
    }
    r
}

/// Joins two components onto `base` in turn.
pub fn path_join2(base: &str, a: &str, b: &str) -> (r: String)
    ensures
        r@ == join_path(join_path(base@, a@), b@),
{
    let first = path_join(base, a);
    path_join(first.as_str(), b)
}

/// The parts of a path that `Path` compares, in order: the pieces between
/// `/`s, without empty pieces and without `.` pieces.
pub open spec fn kept_parts(pieces: Seq<Seq<char>>) -> Seq<Seq<char>>
    decreases pieces.len(),
{
    if pieces.len() == 0 {
        Seq::empty()
    } else {
        let rest = kept_parts(pieces.drop_last());
        let p = pieces.last();
        if p.len() > 0 && p != seq!['.'] {
            rest.push(p)
        } else {
            rest
        }
    }
}

/// What `Path`'s `==` compares of a path's text: whether it starts at the
/// root, whether it starts with a `.` component, and its other parts.
pub open spec fn path_key(s: Seq<char>) -> (bool, bool, Seq<Seq<char>>) {
    let rooted = starts_with(s, seq!['/']);
    (rooted, !rooted && (s == seq!['.'] || starts_with(s, seq!['.', '/'])), kept_parts(split_char(s, '/')))
}

/// Do two path texts name the same path, component by component, as
/// `Path`'s `==` decides?
pub open spec fn same_path(a: Seq<char>, b: Seq<char>) -> bool {
    path_key(a) == path_key(b)
}

/// The parts [`path_key`] keeps.
fn path_parts_exec(v: &Vec<char>) -> (r: Vec<Vec<char>>)
    ensures
        r@.map_values(|p: Vec<char>| p@) == kept_parts(split_char(v@, '/')),
{
    let pieces = split_chars(v, '/');
    let ghost all = split_char(v@, '/');
    let mut out: Vec<Vec<char>> = Vec::new();
    let mut i: usize = 0;
    proof {
        assert(all.take(0) =~= Seq::<Seq<char>>::empty());
        assert(out@.map_values(|p: Vec<char>| p@) =~= Seq::<Seq<char>>::empty());
    }
    while i < pieces.len()
        invariant
            i <= pieces.len(),
            all == split_char(v@, '/'),
            pieces@.len() == all.len(),
            forall|k: int| 0 <= k < pieces@.len() ==> (#[trigger] pieces@[k])@ == all[k],
            out@.map_values(|p: Vec<char>| p@) == kept_parts(all.take(i as int)),
        decreases pieces.len() - i,
    {
        let piece = &pieces[i];
        proof {
            let t = all.take(i as int + 1);
            assert(t.drop_last() =~= all.take(i as int));
            assert(t.last() == pieces@[i as int]@);
        }
        let dot = piece.len() == 1 && piece[0] == '.';
        proof {
            if piece.len() == 1 {
                assert(piece@ =~= seq![piece@[0]]);
            }
            if piece@ == seq!['.'] {
                assert(piece@[0] == '.');
            }
            assert(dot <==> piece@ == seq!['.']);
        }
        if piece.len() > 0 && !dot {
            out.push(piece.clone());
            proof {
                assert(out@.map_values(|p: Vec<char>| p@) =~= kept_parts(all.take(i as int)).push(piece@));
            }
        }
        i += 1;
    }
    proof {
        assert(all.take(i as int) =~= all);
    }
    out
}

/// Decides [`same_path`].
pub fn same_path_exec(a: &str, b: &str) -> (r: bool)
    ensures
        r == same_path(a@, b@),
{
    let va = chars_of(a);
    let vb = chars_of(b);
    let ra = va.len() > 0 && va[0] == '/';
    let rb = vb.len() > 0 && vb[0] == '/';
    let da = !ra && va.len() > 0 && va[0] == '.' && (va.len() == 1 || va[1] == '/');
    let db = !rb && vb.len() > 0 && vb[0] == '.' && (vb.len() == 1 || vb[1] == '/');
    proof {
        assert(ra == starts_with(a@, seq!['/'])) by {
            if va.len() > 0 {
                assert(va@[0] == a@[0]);
                assert(a@.subrange(0, 1) =~= seq![a@[0]]);
                if a@.subrange(0, 1) == seq!['/'] {
                    assert(a@.subrange(0, 1)[0] == '/');
                }
            }
        }
        assert(rb == starts_with(b@, seq!['/'])) by {
            if vb.len() > 0 {
                assert(vb@[0] == b@[0]);
                assert(b@.subrange(0, 1) =~= seq![b@[0]]);
                if b@.subrange(0, 1) == seq!['/'] {
                    assert(b@.subrange(0, 1)[0] == '/');
                }
            }
        }
        assert(da == (!ra && (a@ == seq!['.'] || starts_with(a@, seq!['.', '/'])))) by {
            if va.len() >= 2 {
                assert(a@.subrange(0, 2) =~= seq![a@[0], a@[1]]);
            }
            if va.len() == 1 {
                assert(a@ =~= seq![a@[0]]);
            }
        }
        assert(db == (!rb && (b@ == seq!['.'] || starts_with(b@, seq!['.', '/'])))) by {
            if vb.len() >= 2 {
                assert(b@.subrange(0, 2) =~= seq![b@[0], b@[1]]);
            }
            if vb.len() == 1 {
                assert(b@ =~= seq![b@[0]]);
            }
        }
    }
    if ra != rb || da != db {
        return false;
    }
    let pa = path_parts_exec(&va);
    let pb = path_parts_exec(&vb);
    let ghost ka = kept_parts(split_char(a@, '/'));
    let ghost kb = kept_parts(split_char(b@, '/'));
    if pa.len() != pb.len() {
        proof {
            assert(pa@.map_values(|p: Vec<char>| p@).len() == pa.len());
            assert(pb@.map_values(|p: Vec<char>| p@).len() == pb.len());
            assert(ka.len() != kb.len());
        }
        return false;
    }
    let mut i: usize = 0;
    while i < pa.len()
        invariant
            i <= pa.len() == pb.len(),
            pa@.map_values(|p: Vec<char>| p@) == ka,
            pb@.map_values(|p: Vec<char>| p@) == kb,
            ka == kept_parts(split_char(a@, '/')),
            kb == kept_parts(split_char(b@, '/')),
            forall|k: int| 0 <= k < i ==> ka[k] == kb[k],
        decreases pa.len() - i,
    {
        if !chars_eq(&pa[i], &pb[i]) {
            proof {
                assert(ka[i as int] == pa@[i as int]@);
                assert(kb[i as int] == pb@[i as int]@);
                assert(ka[i as int] != kb[i as int]);
                assert(ka != kb);
                assert(path_key(a@).2 != path_key(b@).2);
            }
            return false;
        }
        proof {
            assert(ka[i as int] == pa@[i as int]@);
            assert(kb[i as int] == pb@[i as int]@);
        }
        i += 1;
    }
    proof {
        assert(ka =~= kb);
    }
    true
}

/// What `Path::parent` gives for a path's text: the path without its last
/// component, after the path's components are normalized.
pub uninterp spec fn path_parent(p: Seq<char>) -> Option<Seq<char>>;

/// The parent of a path, with `Path::parent`.
///
/// Trusted: the result is named, as a function of the text alone; the
/// component rules are not restated.
#[verifier::external_body]
pub(crate) fn parent_path(p: &str) -> (r: Option<String>)
    ensures
        match path_parent(p@) {
            Some(q) => r matches Some(s) && s@ == q,
            None => r is None,
        },
{
    std::path::Path::new(p).parent().map(|q| q.to_string_lossy().into_owned())
}

} // verus!
