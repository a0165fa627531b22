//! The order of device paths, as paths compare: component by component,
//! the root before a leading `.`, that before `..`, and that before any
//! name; names compare character by character, a proper prefix first.

use vstd::prelude::*;

use crate::text::chars_of;

verus! {

/// One token of the sequence a path compares by.
#[derive(Clone, Copy, Debug, PartialEq, Eq)]
pub enum PathToken {
    /// The end of a component; below every other token.
    End,
    /// The root directory.
    Root,
    /// A leading `.` of a relative path.
    Current,
    /// A `..` component.
    Parent,
    /// A character of a name, by its code point.
    Letter(u32),
}

/// The rank of a token kind.
pub open spec fn rank(t: PathToken) -> int {
    match t {
        PathToken::End => 0,
        PathToken::Root => 1,
        PathToken::Current => 2,
        PathToken::Parent => 3,
        PathToken::Letter(_) => 4,
    }
}

/// `a` comes strictly before `b`.
pub open spec fn token_lt(a: PathToken, b: PathToken) -> bool {
    match (a, b) {
        (PathToken::Letter(x), PathToken::Letter(y)) => x < y,
        _ => rank(a) < rank(b),
    }
}

/// Token sequences in lexicographic order, a proper prefix first.
pub open spec fn tokens_le(a: Seq<PathToken>, b: Seq<PathToken>) -> bool
    decreases a.len(),
{
    if a.len() == 0 {
        true
    } else if b.len() == 0 {
        false
    } else if a[0] != b[0] {
        token_lt(a[0], b[0])
    } else {
        tokens_le(a.drop_first(), b.drop_first())
    }
}

/// The parts of a path between its `/` separators, in order; empty parts
/// included.
pub open spec fn split_parts(s: Seq<char>) -> Seq<Seq<char>>
    decreases s.len(),
{
    if s.len() == 0 {
        seq![Seq::empty()]
    } else {
        let p = split_parts(s.drop_last());
        if s.last() == '/' {
            p.push(Seq::empty())
        } else {
            p.update(p.len() - 1, p.last().push(s.last()))
        }
    }
}

/// The tokens of one part: nothing for an empty part or a `.` (but for a
/// leading `.` of a relative path), `..` as a parent, otherwise the name;
/// each component ends with `End`.
pub open spec fn part_tokens(part: Seq<char>, first: bool, rooted: bool) -> Seq<PathToken> {
    if part.len() == 0 {
        Seq::empty()
    } else if part == seq!['.'] {
        if first && !rooted {
            seq![PathToken::Current, PathToken::End]
        } else {
            Seq::empty()
        }
    } else if part == seq!['.', '.'] {
        seq![PathToken::Parent, PathToken::End]
    } else {
        name_tokens(part).push(PathToken::End)
    }
}

/// The characters of a name as tokens.
pub open spec fn name_tokens(part: Seq<char>) -> Seq<PathToken>
    decreases part.len(),
{
    if part.len() == 0 {
        Seq::empty()
    } else {
        name_tokens(part.drop_last()).push(PathToken::Letter(part.last() as u32))
    }
}

/// The tokens of a sequence of parts.
pub open spec fn parts_tokens(parts: Seq<Seq<char>>, rooted: bool) -> Seq<PathToken>
    decreases parts.len(),
{
    if parts.len() == 0 {
        Seq::empty()
    } else {
        parts_tokens(parts.drop_last(), rooted) + part_tokens(parts.last(), parts.len() == 1, rooted)
    }
}

/// Whether a path starts at the root.
pub open spec fn is_rooted(s: Seq<char>) -> bool {
    s.len() > 0 && s[0] == '/'
}

/// The tokens a path compares by.
pub open spec fn path_key(s: Seq<char>) -> Seq<PathToken> {
    (if is_rooted(s) {
        seq![PathToken::Root, PathToken::End]
    } else {
        Seq::empty()
    }) + parts_tokens(split_parts(s), is_rooted(s))
}

/// Path `a` comes no later than path `b`.
pub open spec fn node_le(a: Seq<char>, b: Seq<char>) -> bool {
    tokens_le(path_key(a), path_key(b))
}

/// Any two token sequences are ordered one way or the other.
pub proof fn lemma_tokens_le_total(a: Seq<PathToken>, b: Seq<PathToken>)
    ensures
        tokens_le(a, b) || tokens_le(b, a),
    decreases a.len(),
{
    if a.len() > 0 && b.len() > 0 && a[0] == b[0] {
        lemma_tokens_le_total(a.drop_first(), b.drop_first());
    }
}

/// A token sequence comes no later than itself.
pub proof fn lemma_tokens_le_reflexive(a: Seq<PathToken>)
    ensures
        tokens_le(a, a),
    decreases a.len(),
{
    if a.len() > 0 {
        lemma_tokens_le_reflexive(a.drop_first());
    }
}

/// Token sequences ordered both ways are equal.
pub proof fn lemma_tokens_le_antisymmetric(a: Seq<PathToken>, b: Seq<PathToken>)
    requires
        tokens_le(a, b),
        tokens_le(b, a),
    ensures
        a == b,
    decreases a.len(),
{
    if a.len() > 0 && b.len() > 0 && a[0] == b[0] {
        lemma_tokens_le_antisymmetric(a.drop_first(), b.drop_first());
        assert(a =~= seq![a[0]] + a.drop_first());
        assert(b =~= seq![b[0]] + b.drop_first());
    }
    if a.len() == 0 && b.len() == 0 {
        assert(a =~= b);
    }
}

/// The order of token sequences is transitive.
pub proof fn lemma_tokens_le_transitive(a: Seq<PathToken>, b: Seq<PathToken>, c: Seq<PathToken>)
    requires
        tokens_le(a, b),
        tokens_le(b, c),
    ensures
        tokens_le(a, c),
    decreases a.len(),
{
    if a.len() > 0 && b.len() > 0 && c.len() > 0 && a[0] == b[0] && b[0] == c[0] {
        lemma_tokens_le_transitive(a.drop_first(), b.drop_first(), c.drop_first());
    }
}

fn token_less(a: PathToken, b: PathToken) -> (r: bool)
    ensures
        r == token_lt(a, b),
{
    match (a, b) {
        (PathToken::Letter(x), PathToken::Letter(y)) => x < y,
        _ => rank_of(a) < rank_of(b),
    }
}

fn rank_of(t: PathToken) -> (r: u8)
    ensures
        r == rank(t),
{
    match t {
        PathToken::End => 0,
        PathToken::Root => 1,
        PathToken::Current => 2,
        PathToken::Parent => 3,
        PathToken::Letter(_) => 4,
    }
}

fn token_same(a: PathToken, b: PathToken) -> (r: bool)
    ensures
        r == (a == b),
{
    match (a, b) {
        (PathToken::Letter(x), PathToken::Letter(y)) => x == y,
        (PathToken::End, PathToken::End) => true,
        (PathToken::Root, PathToken::Root) => true,
        (PathToken::Current, PathToken::Current) => true,
        (PathToken::Parent, PathToken::Parent) => true,
        _ => false,
    }
}

/// Whether token sequence `a` comes no later than `b`.
pub fn tokens_in_order(a: &Vec<PathToken>, b: &Vec<PathToken>) -> (r: bool)
    ensures
        r == tokens_le(a@, b@),
{
    let mut i: usize = 0;
    assert(a@.skip(0) =~= a@ && b@.skip(0) =~= b@);
    while i < a.len() && i < b.len()
        invariant
            i <= a@.len() && i <= b@.len(),
            tokens_le(a@, b@) == tokens_le(a@.skip(i as int), b@.skip(i as int)),
        decreases a@.len() - i,
    {
        let x = a[i];
        let y = b[i];
        assert(a@.skip(i as int)[0] == x && b@.skip(i as int)[0] == y);
        if !token_same(x, y) {
            return token_less(x, y);
        }
        assert(a@.skip(i as int).drop_first() =~= a@.skip(i + 1));
        assert(b@.skip(i as int).drop_first() =~= b@.skip(i + 1));
        i = i + 1;
    }
    i == a.len()
}

fn push_part(key: &mut Vec<PathToken>, part: &Vec<char>, first: bool, rooted: bool)
    ensures
        final(key)@ == old(key)@ + part_tokens(part@, first, rooted),
{
    let n = part.len();
    if n == 0 {
        assert(old(key)@ + part_tokens(part@, first, rooted) =~= old(key)@);
        return;
    }
    if n == 1 && part[0] == '.' {
        assert(part@ =~= seq!['.']);
        if first && !rooted {
            key.push(PathToken::Current);
            key.push(PathToken::End);
            assert(key@ =~= old(key)@ + seq![PathToken::Current, PathToken::End]);
        } else {
            assert(old(key)@ + part_tokens(part@, first, rooted) =~= old(key)@);
        }
        return;
    }
    if n == 2 && part[0] == '.' && part[1] == '.' {
        assert(part@ =~= seq!['.', '.']);
        key.push(PathToken::Parent);
        key.push(PathToken::End);
        assert(key@ =~= old(key)@ + seq![PathToken::Parent, PathToken::End]);
        return;
    }
    assert(part@ != seq!['.']) by {
        if n == 1 {
            assert(part@[0] != seq!['.'][0]);
        }
    }
    assert(part@ != seq!['.', '.']) by {
        if n == 2 {
            assert(part@[0] != seq!['.', '.'][0] || part@[1] != seq!['.', '.'][1]);
        }
    }
    let ghost start = key@;
    let mut k: usize = 0;
    assert(part@.subrange(0, 0) =~= Seq::<char>::empty());
    assert(key@ =~= start + name_tokens(part@.subrange(0, 0)));
    while k < n
        invariant
            n == part@.len(),
            k <= n,
            key@ == start + name_tokens(part@.subrange(0, k as int)),
        decreases n - k,
    {
        key.push(PathToken::Letter(part[k] as u32));
        assert(part@.subrange(0, k + 1).drop_last() =~= part@.subrange(0, k as int));
        assert(part@.subrange(0, k + 1).last() == part@[k as int]);
        assert(name_tokens(part@.subrange(0, k + 1)) == name_tokens(part@.subrange(0, k as int)).push(
            PathToken::Letter(part@[k as int] as u32),
        ));
        assert(key@ =~= start + name_tokens(part@.subrange(0, k + 1)));
        k = k + 1;
    }
    assert(part@.subrange(0, n as int) =~= part@);
    key.push(PathToken::End);
    assert(key@ =~= start + part_tokens(part@, first, rooted));
}

/// The tokens path `s` compares by.
pub fn path_tokens(s: &str) -> (r: Vec<PathToken>)
    ensures
        r@ == path_key(s@),
{
    let cs = chars_of(s);
    let rooted = cs.len() > 0 && cs[0] == '/';
    let mut key: Vec<PathToken> = Vec::new();
    if rooted {
        key.push(PathToken::Root);
        key.push(PathToken::End);
    }
    let ghost prefix = key@;
    let ghost mut done: Seq<Seq<char>> = Seq::empty();
    let mut part: Vec<char> = Vec::new();
    let mut first = true;
    let mut i: usize = 0;
    proof {
        assert(cs@.subrange(0, 0) =~= Seq::<char>::empty());
        assert(split_parts(Seq::<char>::empty()) == done.push(part@));
        assert(key@ =~= prefix + parts_tokens(done, rooted));
    }
    while i < cs.len()
        invariant
            cs@ == s@,
            i <= cs@.len(),
            rooted == is_rooted(s@),
            prefix == (if rooted {
                seq![PathToken::Root, PathToken::End]
            } else {
                Seq::<PathToken>::empty()
            }),
            split_parts(cs@.subrange(0, i as int)) == done.push(part@),
            key@ == prefix + parts_tokens(done, rooted),
            first == (done.len() == 0),
        decreases cs@.len() - i,
    {
        let c = cs[i];
        proof {
            assert(cs@.subrange(0, i + 1).drop_last() =~= cs@.subrange(0, i as int));
            assert(cs@.subrange(0, i + 1).last() == c);
        }
        if c == '/' {
            push_part(&mut key, &part, first, rooted);
            proof {
                let nd = done.push(part@);
                assert(nd.drop_last() =~= done);
                assert(parts_tokens(nd, rooted) == parts_tokens(done, rooted) + part_tokens(part@, first, rooted));
                assert(key@ =~= prefix + parts_tokens(nd, rooted));
                done = nd;
            }
            part = Vec::new();
            first = false;
            proof {
                assert(split_parts(cs@.subrange(0, i + 1)) =~= done.push(part@));
            }
        } else {
            let ghost old_part = part@;
            part.push(c);
            proof {
                let p = done.push(old_part);
                assert(p.update(p.len() - 1, p.last().push(c)) =~= done.push(part@));
            }
        }
        i = i + 1;
    }
    push_part(&mut key, &part, first, rooted);
    proof {
        let nd = done.push(part@);
        assert(nd.drop_last() =~= done);
        assert(cs@.subrange(0, cs@.len() as int) =~= s@);
        assert(key@ =~= prefix + parts_tokens(nd, rooted));
    }
    key
}

/// Whether path `a` comes no later than path `b`.
pub fn node_in_order(a: &str, b: &str) -> (r: bool)
    ensures
        r == node_le(a@, b@),
{
    let ka = path_tokens(a);
    let kb = path_tokens(b);
    tokens_in_order(&ka, &kb)
}

} // verus!
