//! Paths: components between slashes.
use vstd::prelude::*;

verus! {

/// The byte between the components of a path.
pub const SLASH: u8 = 0x2f;

/// The byte of a dot.
pub const DOT: u8 = 0x2e;

/// A path with one more component.
pub open spec fn joined_path(base: Seq<u8>, name: Seq<u8>) -> Seq<u8> {
    if base.len() == 0 || base.last() == SLASH {
        base + name
    } else {
        base.push(SLASH) + name
    }
}

/// A path with one more component.
pub fn join_path(base: &[u8], name: &[u8]) -> (r: Vec<u8>)
    ensures
        r@ == joined_path(base@, name@),
{
    let mut out: Vec<u8> = Vec::new();
    out.extend_from_slice(base);
    assert(out@ =~= base@);
    if base.len() > 0 && base[base.len() - 1] != SLASH {
        out.push(SLASH);
    }
    out.extend_from_slice(name);
    assert(out@ =~= joined_path(base@, name@));
    out
}

/// Whether a path starts at the root.
pub open spec fn is_absolute(path: Seq<u8>) -> bool {
    path.len() > 0 && path[0] == SLASH
}

/// What stands between the slashes of a path, one more than there are slashes.
pub open spec fn slash_parts(path: Seq<u8>) -> Seq<Seq<u8>>
    decreases path.len(),
{
    if path.len() == 0 {
        seq![Seq::empty()]
    } else {
        let before = slash_parts(path.drop_last());
        if path.last() == SLASH {
            before.push(Seq::empty())
        } else {
            before.update(before.len() - 1, before.last().push(path.last()))
        }
    }
}

/// Whether a part is a component: an empty one is not, and a dot only at the start of a path that
/// does not start at the root.
pub open spec fn is_component(part: Seq<u8>, first: bool, absolute: bool) -> bool {
    part.len() > 0 && (part != seq![DOT] || (first && !absolute))
}

/// The components among the parts.
pub open spec fn kept_parts(parts: Seq<Seq<u8>>, absolute: bool) -> Seq<Seq<u8>>
    decreases parts.len(),
{
    if parts.len() == 0 {
        Seq::empty()
    } else if is_component(parts.last(), parts.len() == 1, absolute) {
        kept_parts(parts.drop_last(), absolute).push(parts.last())
    } else {
        kept_parts(parts.drop_last(), absolute)
    }
}

/// The components of a path. The root is a component of its own: a slash.
pub open spec fn components_of(path: Seq<u8>) -> Seq<Seq<u8>> {
    (if is_absolute(path) {
        seq![seq![SLASH]]
    } else {
        Seq::empty()
    }) + kept_parts(slash_parts(path), is_absolute(path))
}

/// Whether a path lies in a directory or is the directory.
pub open spec fn lies_under(directory: Seq<u8>, path: Seq<u8>) -> bool {
    components_of(directory).is_prefix_of(components_of(path))
}

proof fn lemma_parts_len(path: Seq<u8>)
    ensures
        slash_parts(path).len() > 0,
        path.len() > 0 && path.last() == SLASH ==> slash_parts(path).len() > 1
            && slash_parts(path).last().len() == 0,
    decreases path.len(),
{
    if path.len() > 0 {
        lemma_parts_len(path.drop_last());
    }
}

/// The components of a path.
pub fn components(path: &[u8]) -> (r: Vec<Vec<u8>>)
    ensures
        r.deep_view() == components_of(path@),
{
    let absolute = path.len() > 0 && path[0] == SLASH;
    let mut out: Vec<Vec<u8>> = Vec::new();
    if absolute {
        let mut root: Vec<u8> = Vec::new();
        root.push(SLASH);
        assert(root.deep_view() =~= seq![SLASH]);
        out.push(root);
    }
    let ghost root = out.deep_view();
    assert(root =~= if absolute {
        seq![seq![SLASH]]
    } else {
        Seq::empty()
    });
    let mut current: Vec<u8> = Vec::new();
    let mut first = true;
    let mut i: usize = 0;
    assert(path@.take(0) =~= Seq::empty());
    assert(slash_parts(path@.take(0)).drop_last() =~= Seq::empty());
    assert(out.deep_view() =~= root + kept_parts(
        slash_parts(path@.take(0)).drop_last(),
        absolute,
    ));
    while i < path.len()
        invariant
            i <= path@.len(),
            absolute == is_absolute(path@),
            root == (if absolute {
                seq![seq![SLASH]]
            } else {
                Seq::<Seq<u8>>::empty()
            }),
            slash_parts(path@.take(i as int)).len() > 0,
            first == (slash_parts(path@.take(i as int)).len() == 1),
            current@ == slash_parts(path@.take(i as int)).last(),
            out.deep_view() == root + kept_parts(
                slash_parts(path@.take(i as int)).drop_last(),
                absolute,
            ),
        decreases path@.len() - i,
    {
        let ghost before = slash_parts(path@.take(i as int));
        let ghost after = slash_parts(path@.take(i + 1));
        assert(path@.take(i + 1).drop_last() =~= path@.take(i as int));
        if path[i] == SLASH {
            assert(after.drop_last() =~= before);
            take_component(&mut out, current, first, absolute);
            assert(out.deep_view() =~= root + kept_parts(before, absolute));
            current = Vec::new();
            first = false;
        } else {
            current.push(path[i]);
            assert(after.drop_last() =~= before.drop_last());
            assert(current@ =~= after.last());
        }
        i += 1;
    }
    assert(path@.take(i as int) =~= path@);
    take_component(&mut out, current, first, absolute);
    assert(out.deep_view() =~= components_of(path@));
    out
}

/// Adds a part where it is a component.
fn take_component(out: &mut Vec<Vec<u8>>, part: Vec<u8>, first: bool, absolute: bool)
    ensures
        final(out).deep_view() == if is_component(part@, first, absolute) {
            old(out).deep_view().push(part@)
        } else {
            old(out).deep_view()
        },
{
    let dot = part.len() == 1 && part[0] == DOT;
    assert(dot == (part@ =~= seq![DOT]));
    if part.len() > 0 && (!dot || (first && !absolute)) {
        let ghost before = out.deep_view();
        assert(part.deep_view() =~= part@);
        out.push(part);
        assert(out.deep_view() =~= before.push(part@));
    }
}

/// Whether two components are the same.
fn same_bytes(a: &Vec<u8>, b: &Vec<u8>) -> (r: bool)
    ensures
        r == (a@ == b@),
{
    if a.len() != b.len() {
        return false;
    }
    let mut i: usize = 0;
    while i < a.len()
        invariant
            a@.len() == b@.len(),
            i <= a@.len(),
            forall|j: int| 0 <= j < i ==> a@[j] == b@[j],
        decreases a@.len() - i,
    {
        if a[i] != b[i] {
            return false;
        }
        i += 1;
    }
    assert(a@ =~= b@);
    true
}

/// Whether a path lies in a directory or is the directory.
pub fn is_under(directory: &[u8], path: &[u8]) -> (r: bool)
    ensures
        r == lies_under(directory@, path@),
{
    let outer = components(directory);
    let inner = components(path);
    let ghost a = outer.deep_view();
    let ghost b = inner.deep_view();
    if outer.len() > inner.len() {
        return false;
    }
    let mut i: usize = 0;
    while i < outer.len()
        invariant
            a == outer.deep_view(),
            b == inner.deep_view(),
            a == components_of(directory@),
            b == components_of(path@),
            i <= outer@.len() <= inner@.len(),
            forall|j: int| 0 <= j < i ==> #[trigger] a[j] == b[j],
        decreases outer@.len() - i,
    {
        assert(a[i as int] == outer@[i as int].deep_view());
        assert(b[i as int] == inner@[i as int].deep_view());
        assert(outer@[i as int].deep_view() =~= outer@[i as int]@);
        assert(inner@[i as int].deep_view() =~= inner@[i as int]@);
        if !same_bytes(&outer[i], &inner[i]) {
            assert(a[i as int] != b[i as int]);
            assert(b.take(a.len() as int)[i as int] == b[i as int]);
            return false;
        }
        i += 1;
    }
    assert(a =~= b.take(a.len() as int));
    true
}

proof fn lemma_parts_of_rest(a: Seq<u8>, b: Seq<u8>)
    ensures
        slash_parts(a.push(SLASH) + b) == slash_parts(a) + slash_parts(b),
    decreases b.len(),
{
    let all = a.push(SLASH) + b;
    if b.len() == 0 {
        assert(all =~= a.push(SLASH));
        assert(all.drop_last() =~= a);
        assert(slash_parts(all) =~= slash_parts(a) + slash_parts(b));
    } else {
        lemma_parts_of_rest(a, b.drop_last());
        lemma_parts_len(b.drop_last());
        assert(all.drop_last() =~= a.push(SLASH) + b.drop_last());
        assert(slash_parts(all) =~= slash_parts(a) + slash_parts(b));
    }
}

proof fn lemma_kept_first(parts: Seq<Seq<u8>>, more: Seq<Seq<u8>>, absolute: bool)
    ensures
        kept_parts(parts, absolute).is_prefix_of(kept_parts(parts + more, absolute)),
    decreases more.len(),
{
    if more.len() == 0 {
        assert(parts + more =~= parts);
    } else {
        lemma_kept_first(parts, more.drop_last(), absolute);
        assert((parts + more).drop_last() =~= parts + more.drop_last());
        let kept = kept_parts(parts, absolute);
        let longer = kept_parts(parts + more.drop_last(), absolute);
        let all = kept_parts(parts + more, absolute);
        assert(longer.take(kept.len() as int) =~= kept);
        assert(all.take(kept.len() as int) =~= kept);
    }
}

/// A path that is reached from a directory by a path that does not start at the root lies in the
/// directory, as far as the components say.
pub proof fn law_joined_paths_lie_under(directory: Seq<u8>, path: Seq<u8>)
    requires
        !is_absolute(path),
    ensures
        lies_under(directory, joined_path(directory, path)),
{
    let all = joined_path(directory, path);
    let absolute = is_absolute(directory);
    if directory.len() == 0 {
        assert(slash_parts(directory) =~= seq![Seq::empty()]);
        reveal_with_fuel(kept_parts, 2);
        assert(kept_parts(slash_parts(directory), false) =~= Seq::empty());
        assert(components_of(directory) =~= Seq::empty());
    } else {
        lemma_parts_len(directory);
        let parts = if directory.last() == SLASH {
            slash_parts(directory.drop_last())
        } else {
            slash_parts(directory)
        };
        if directory.last() == SLASH {
            assert(directory =~= directory.drop_last().push(SLASH));
            lemma_parts_of_rest(directory.drop_last(), path);
            assert(slash_parts(directory).drop_last() =~= parts);
        } else {
            lemma_parts_of_rest(directory, path);
        }
        assert(is_absolute(all) == absolute);
        assert(slash_parts(all) == parts + slash_parts(path));
        lemma_kept_first(parts, slash_parts(path), absolute);
        assert(kept_parts(slash_parts(directory), absolute) =~= kept_parts(parts, absolute));
        let kept = kept_parts(parts, absolute);
        let more = kept_parts(slash_parts(all), absolute);
        assert(more.take(kept.len() as int) =~= kept);
        assert(components_of(directory) =~= components_of(all).take(
            components_of(directory).len() as int,
        ));
    }
}

/// Whether a path lies in a directory is the same for what lies in the path: a file of a directory
/// that lies in the workspace lies in the workspace.
pub proof fn law_lying_under_is_transitive(a: Seq<u8>, b: Seq<u8>, c: Seq<u8>)
    requires
        lies_under(a, b),
        lies_under(b, c),
    ensures
        lies_under(a, c),
{
    let x = components_of(a);
    let y = components_of(b);
    let z = components_of(c);
    assert(x =~= y.take(x.len() as int));
    assert(y =~= z.take(y.len() as int));
    assert(x =~= z.take(x.len() as int));
}

} // verus!
