//! Unix path text: joining, components, prefixes and file names.
//!
//! Paths are carried as their text. Joining follows `Path::join` on Unix:
//! an absolute second path replaces the first, and a separator is inserted
//! only when the first path is non-empty and does not already end in one.
//! Components follow `Path::components`: repeated slashes, a trailing slash
//! and inner `.` pieces leave no component.

use vstd::prelude::*;
use crate::text::{chars_of, ends_with, push_char, push_str, starts_with, string_eq_text, string_from_range};

verus! {

/// `base` joined with `rest`, as `Path::join` builds it on Unix.
pub open spec fn join_path(base: Seq<char>, rest: Seq<char>) -> Seq<char> {
    if rest.len() > 0 && rest[0] == '/' {
        rest
    } else if base.len() > 0 && base.last() != '/' {
        base + seq!['/'] + rest
    } else {
        base + rest
    }
}

/// Joins `rest` onto `base` as `Path::join` does on Unix.
pub fn path_join(base: &str, rest: &str) -> (r: String)
    ensures
        r@ == join_path(base@, rest@),
{
    let leading = starts_with(rest, "/");
    proof {
        reveal_strlit("/");
        assert("/"@ =~= seq!['/']);
        if rest@.len() > 0 {
            assert(rest@.subrange(0, 1)[0] == rest@[0]);
            if rest@[0] == '/' {
                assert(rest@.subrange(0, 1) =~= seq!['/']);
            }
        }
    }
    if leading {
        return rest.to_owned();
    }
    let mut out = base.to_owned();
    let trailing = ends_with(base, "/");
    proof {
        if base@.len() > 0 {
            let last = base@.subrange(base@.len() - 1, base@.len() as int);
            assert(last[0] == base@.last());
            if base@.last() == '/' {
                assert(last =~= seq!['/']);
            }
        }
    }
    if !base.is_empty() && !trailing {
        push_str(&mut out, "/");
    }
    push_str(&mut out, rest);
    out
}

/// The characters of `s` after its first `n`.
pub fn text_after(s: &str, n: usize) -> (r: String)
    requires
        n <= s@.len(),
    ensures
        r@ == s@.subrange(n as int, s@.len() as int),
{
    let chars = chars_of(s);
    string_from_range(&chars, n, chars.len())
}

/// The pieces of `s` between slashes, as `str::split('/')` yields them.
pub open spec fn slash_pieces(s: Seq<char>) -> Seq<Seq<char>>
    decreases s.len(),
{
    if s.len() == 0 {
        seq![Seq::empty()]
    } else if s.last() == '/' {
        slash_pieces(s.drop_last()).push(Seq::empty())
    } else {
        let p = slash_pieces(s.drop_last());
        p.update(p.len() - 1, p.last().push(s.last()))
    }
}

/// Whether a piece between slashes names a component: it is neither empty
/// nor `.`.
pub open spec fn names_component(piece: Seq<char>) -> bool {
    piece.len() > 0 && piece != "."@
}

/// The pieces that name components, in order.
pub open spec fn named_pieces(pieces: Seq<Seq<char>>) -> Seq<Seq<char>>
    decreases pieces.len(),
{
    if pieces.len() == 0 {
        Seq::empty()
    } else if names_component(pieces.last()) {
        named_pieces(pieces.drop_last()).push(pieces.last())
    } else {
        named_pieces(pieces.drop_last())
    }
}

/// A Unix path's components as `Path::components` yields them: `/` for the
/// root, `.` for a leading current-directory piece of a relative path, then
/// each piece that names a component. Repeated slashes, a trailing slash and
/// inner `.` pieces leave no component.
pub open spec fn path_components(s: Seq<char>) -> Seq<Seq<char>> {
    let pieces = slash_pieces(s);
    let lead = if s.len() > 0 && s[0] == '/' {
        seq!["/"@]
    } else if pieces[0] == "."@ {
        seq!["."@]
    } else {
        Seq::empty()
    };
    lead + named_pieces(pieces)
}

/// Whether `path` starts with `base`, component by component.
pub open spec fn path_starts_with(path: Seq<char>, base: Seq<char>) -> bool {
    let p = path_components(path);
    let b = path_components(base);
    b.len() <= p.len() && forall|i: int| 0 <= i < b.len() ==> #[trigger] b[i] == p[i]
}

/// Strings as their text.
pub open spec fn texts(v: Seq<String>) -> Seq<Seq<char>> {
    v.map_values(|s: String| s@)
}

proof fn lemma_pieces_nonempty(s: Seq<char>)
    ensures
        slash_pieces(s).len() >= 1,
    decreases s.len(),
{
    if s.len() > 0 {
        lemma_pieces_nonempty(s.drop_last());
    }
}

/// The components of a path.
pub fn path_components_of(s: &str) -> (v: Vec<String>)
    ensures
        texts(v@) == path_components(s@),
{
    proof {
        reveal_strlit("/");
        reveal_strlit(".");
    }
    let chars = chars_of(s);
    let ghost whole = s@;
    let mut named: Vec<String> = Vec::new();
    let mut current = String::new();
    let mut seen_slash = false;
    let mut first_is_dot = false;
    let mut i: usize = 0;
    proof {
        assert(whole.take(0) =~= Seq::<char>::empty());
    }
    while i < chars.len()
        invariant
            chars@ == whole,
            whole == s@,
            i <= whole.len(),
            slash_pieces(whole.take(i as int)).len() >= 1,
            current@ == slash_pieces(whole.take(i as int)).last(),
            texts(named@) == named_pieces(slash_pieces(whole.take(i as int)).drop_last()),
            !seen_slash ==> slash_pieces(whole.take(i as int)).len() == 1,
            seen_slash ==> slash_pieces(whole.take(i as int)).len() > 1 && first_is_dot == (slash_pieces(
                whole.take(i as int),
            )[0] == "."@),
        decreases chars.len() - i,
    {
        let c = chars[i];
        let ghost before = whole.take(i as int);
        let ghost after = whole.take(i + 1);
        proof {
            assert(after.drop_last() =~= before);
            assert(after.last() == c);
            lemma_pieces_nonempty(before);
        }
        if c == '/' {
            if !seen_slash {
                first_is_dot = string_eq_text(current.as_str(), ".");
                seen_slash = true;
            }
            let ghost old_named = named@;
            if !current.as_str().is_empty() && !string_eq_text(current.as_str(), ".") {
                named.push(current);
                proof {
                    assert(texts(named@) =~= texts(old_named).push(slash_pieces(before).last()));
                }
            }
            proof {
                assert(slash_pieces(after) == slash_pieces(before).push(Seq::<char>::empty()));
                assert(slash_pieces(after).drop_last() =~= slash_pieces(before));
                let p = slash_pieces(before);
                assert(p =~= p.drop_last().push(p.last()));
                assert(named_pieces(p) == if names_component(p.last()) {
                    named_pieces(p.drop_last()).push(p.last())
                } else {
                    named_pieces(p.drop_last())
                });
            }
            current = String::new();
            proof {
                assert(current@ =~= slash_pieces(after).last());
            }
        } else {
            push_char(&mut current, c);
            proof {
                let p = slash_pieces(before);
                assert(slash_pieces(after) == p.update(p.len() - 1, p.last().push(c)));
                assert(slash_pieces(after).drop_last() =~= p.drop_last());
            }
        }
        i = i + 1;
    }
    proof {
        assert(whole.take(whole.len() as int) =~= whole);
    }
    let ghost pieces = slash_pieces(whole);
    if !seen_slash {
        first_is_dot = string_eq_text(current.as_str(), ".");
    }
    let ghost old_named = named@;
    if !current.as_str().is_empty() && !string_eq_text(current.as_str(), ".") {
        named.push(current);
        proof {
            assert(texts(named@) =~= texts(old_named).push(pieces.last()));
        }
    }
    proof {
        assert(pieces =~= pieces.drop_last().push(pieces.last()));
        assert(texts(named@) == named_pieces(pieces));
    }
    let mut components: Vec<String> = Vec::new();
    if chars.len() > 0 && chars[0] == '/' {
        components.push("/".to_owned());
    } else if first_is_dot {
        components.push(".".to_owned());
    }
    let ghost lead = texts(components@);
    proof {
        if whole.len() > 0 && whole[0] == '/' {
            assert(lead =~= seq!["/"@]);
        } else if pieces[0] == "."@ {
            assert(lead =~= seq!["."@]);
        } else {
            assert(lead =~= Seq::<Seq<char>>::empty());
        }
    }
    let mut k: usize = 0;
    let ghost named_texts = texts(named@);
    while k < named.len()
        invariant
            k <= named@.len(),
            named_texts == texts(named@),
            texts(components@) == lead + texts(named@).take(k as int),
        decreases named.len() - k,
    {
        let piece = named[k].as_str().to_owned();
        assert(piece@ == texts(named@)[k as int]);
        let ghost before = components@;
        components.push(piece);
        assert(texts(components@) =~= texts(before).push(piece@));
        assert(texts(named@).take(k + 1) =~= texts(named@).take(k as int).push(piece@));
        k = k + 1;
        proof {
            assert(texts(components@) =~= lead + texts(named@).take(k as int));
        }
    }
    proof {
        assert(texts(named@).take(named@.len() as int) =~= texts(named@));
    }
    components
}

/// Whether `path` lies under `base`, component by component.
pub fn path_is_under(path: &str, base: &str) -> (b: bool)
    ensures
        b == path_starts_with(path@, base@),
{
    let path_parts = path_components_of(path);
    let base_parts = path_components_of(base);
    if base_parts.len() > path_parts.len() {
        assert(texts(base_parts@).len() > texts(path_parts@).len());
        return false;
    }
    let mut i: usize = 0;
    while i < base_parts.len()
        invariant
            base_parts.len() <= path_parts.len(),
            i <= base_parts.len(),
            texts(path_parts@) == path_components(path@),
            texts(base_parts@) == path_components(base@),
            forall|j: int| 0 <= j < i ==> #[trigger] texts(base_parts@)[j] == texts(path_parts@)[j],
        decreases base_parts.len() - i,
    {
        if !string_eq_text(base_parts[i].as_str(), path_parts[i].as_str()) {
            assert(texts(base_parts@)[i as int] != texts(path_parts@)[i as int]);
            return false;
        }
        i = i + 1;
    }
    true
}

/// The final component of a path when it is a name, as `Path::file_name`
/// gives it on Unix: none for an empty path, the root, `.` or `..`.
pub open spec fn path_file_name(path: Seq<char>) -> Option<Seq<char>> {
    let c = path_components(path);
    if c.len() == 0 || c.last() == "/"@ || c.last() == "."@ || c.last() == ".."@ {
        None
    } else {
        Some(c.last())
    }
}

/// The file name of a path: its final component when that is a name.
pub fn file_name(path: &str) -> (r: Option<String>)
    ensures
        r is Some == path_file_name(path@) is Some,
        r matches Some(n) ==> path_file_name(path@) == Some(n@),
{
    let components = path_components_of(path);
    let n = components.len();
    if n == 0 {
        return None;
    }
    let last = components[n - 1].as_str();
    assert(last@ == texts(components@).last());
    if string_eq_text(last, "/") || string_eq_text(last, ".") || string_eq_text(last, "..") {
        None
    } else {
        Some(last.to_owned())
    }
}

/// `parts` joined with a slash between each two.
pub open spec fn join_with_slash(parts: Seq<Seq<char>>) -> Seq<char>
    decreases parts.len(),
{
    if parts.len() == 0 {
        Seq::empty()
    } else if parts.len() == 1 {
        parts[0]
    } else {
        join_with_slash(parts.drop_last()) + "/"@ + parts.last()
    }
}

/// Path components written back as a path: the root as a leading slash,
/// then the other components joined by slashes.
pub open spec fn component_text(cs: Seq<Seq<char>>) -> Seq<char> {
    if cs.len() > 0 && cs[0] == "/"@ {
        "/"@ + join_with_slash(cs.drop_first())
    } else {
        join_with_slash(cs)
    }
}

/// The text a path is known by: its components written back as a path. Two
/// paths with the same components, such as `a//b.json` and `a/./b.json`,
/// have the same key, as `PathBuf` compares them.
pub open spec fn path_key(p: Seq<char>) -> Seq<char> {
    component_text(path_components(p))
}

/// The key of a path: its components written back as a path.
pub fn path_key_of(p: &str) -> (r: String)
    ensures
        r@ == path_key(p@),
{
    proof {
        reveal_strlit("/");
    }
    let comps = path_components_of(p);
    let ghost cs = texts(comps@);
    let mut out = String::new();
    let mut start: usize = 0;
    if comps.len() > 0 && string_eq_text(comps[0].as_str(), "/") {
        assert(cs[0] == comps@[0]@);
        push_str(&mut out, "/");
        start = 1;
    } else if comps.len() > 0 {
        assert(cs[0] == comps@[0]@);
    }
    let ghost lead = out@;
    let mut i: usize = start;
    assert(cs.subrange(start as int, start as int) =~= Seq::<Seq<char>>::empty());
    while i < comps.len()
        invariant
            start <= i <= comps@.len(),
            cs == texts(comps@),
            out@ == lead + join_with_slash(cs.subrange(start as int, i as int)),
        decreases comps.len() - i,
    {
        let ghost before = cs.subrange(start as int, i as int);
        let ghost after = cs.subrange(start as int, i + 1);
        assert(after.drop_last() =~= before);
        assert(after.last() == comps@[i as int]@);
        if i > start {
            push_str(&mut out, "/");
        }
        push_str(&mut out, comps[i].as_str());
        proof {
            if before.len() == 0 {
                assert(after.len() == 1);
                assert(out@ =~= lead + join_with_slash(after));
            } else {
                assert(out@ =~= lead + join_with_slash(after));
            }
        }
        i = i + 1;
    }
    proof {
        if start == 1 {
            assert(cs.subrange(1, cs.len() as int) =~= cs.drop_first());
            assert(lead =~= "/"@);
        } else {
            assert(cs.subrange(0, cs.len() as int) =~= cs);
            assert(lead =~= Seq::<char>::empty());
        }
    }
    out
}

/// `s` has no slash.
pub open spec fn no_slash(s: Seq<char>) -> bool {
    forall|i: int| 0 <= i < s.len() ==> s[i] != '/'
}

/// Parts that are non-empty and have no slash.
pub open spec fn plain_parts(parts: Seq<Seq<char>>) -> bool {
    forall|i: int| 0 <= i < parts.len() ==> (#[trigger] parts[i]).len() > 0 && no_slash(parts[i])
}

proof fn lemma_pieces_no_slash(s: Seq<char>)
    ensures
        forall|i: int| 0 <= i < slash_pieces(s).len() ==> no_slash(#[trigger] slash_pieces(s)[i]),
    decreases s.len(),
{
    if s.len() > 0 {
        lemma_pieces_no_slash(s.drop_last());
        lemma_pieces_nonempty(s.drop_last());
        let p = slash_pieces(s.drop_last());
        if s.last() != '/' {
            let q = p.update(p.len() - 1, p.last().push(s.last()));
            assert forall|i: int| 0 <= i < q.len() implies no_slash(#[trigger] q[i]) by {
                if i == p.len() - 1 {
                    assert(no_slash(p[i]));
                    assert forall|k: int| 0 <= k < q[i].len() implies q[i][k] != '/' by {
                        if k < p[i].len() {
                            assert(q[i][k] == p[i][k]);
                        }
                    }
                }
            }
        } else {
            let q = p.push(Seq::<char>::empty());
            assert forall|i: int| 0 <= i < q.len() implies no_slash(#[trigger] q[i]) by {
                if i < p.len() {
                    assert(q[i] == p[i]);
                }
            }
        }
    }
}

proof fn lemma_named_plain(pieces: Seq<Seq<char>>)
    requires
        forall|i: int| 0 <= i < pieces.len() ==> no_slash(#[trigger] pieces[i]),
    ensures
        plain_parts(named_pieces(pieces)),
        forall|i: int| 0 <= i < named_pieces(pieces).len() ==> #[trigger] named_pieces(pieces)[i] != "."@,
    decreases pieces.len(),
{
    if pieces.len() > 0 {
        let rest = pieces.drop_last();
        assert forall|i: int| 0 <= i < rest.len() implies no_slash(#[trigger] rest[i]) by {
            assert(rest[i] == pieces[i]);
        }
        lemma_named_plain(rest);
        assert(no_slash(pieces[pieces.len() - 1]));
    }
}

proof fn lemma_join_first(parts: Seq<Seq<char>>)
    requires
        parts.len() > 0,
        plain_parts(parts),
    ensures
        join_with_slash(parts).len() > 0,
        join_with_slash(parts)[0] == parts[0][0],
    decreases parts.len(),
{
    assert(parts[0].len() > 0);
    if parts.len() > 1 {
        let rest = parts.drop_last();
        assert forall|i: int| 0 <= i < rest.len() implies (#[trigger] rest[i]).len() > 0 && no_slash(rest[i]) by {
            assert(rest[i] == parts[i]);
        }
        lemma_join_first(rest);
    }
}

proof fn lemma_join_injective(x: Seq<Seq<char>>, y: Seq<Seq<char>>)
    requires
        plain_parts(x),
        plain_parts(y),
        join_with_slash(x) == join_with_slash(y),
    ensures
        x == y,
    decreases x.len() + y.len(),
{
    reveal_strlit("/");
    if x.len() == 0 || y.len() == 0 {
        if x.len() > 0 {
            lemma_join_first(x);
        }
        if y.len() > 0 {
            lemma_join_first(y);
        }
        assert(x =~= y);
    } else if x.len() == 1 && y.len() == 1 {
        assert(x =~= y);
    } else if x.len() == 1 {
        let j = join_with_slash(y);
        let k = join_with_slash(y.drop_last()).len() as int;
        assert(j == join_with_slash(y.drop_last()) + "/"@ + y.last());
        assert(j[k] == '/');
        assert(no_slash(x[0]));
        assert(j == x[0]);
    } else if y.len() == 1 {
        let j = join_with_slash(x);
        let k = join_with_slash(x.drop_last()).len() as int;
        assert(j == join_with_slash(x.drop_last()) + "/"@ + x.last());
        assert(j[k] == '/');
        assert(no_slash(y[0]));
        assert(j == y[0]);
    } else {
        let j = join_with_slash(x);
        let lx = x.last();
        let ly = y.last();
        let jx = join_with_slash(x.drop_last());
        let jy = join_with_slash(y.drop_last());
        assert(j == jx + "/"@ + lx);
        assert(j == jy + "/"@ + ly);
        assert(no_slash(lx) && no_slash(ly));
        if lx.len() < ly.len() {
            let k = j.len() - lx.len() - 1;
            assert(j[k] == (jx + "/"@ + lx)[k]);
            assert(j[k] == '/');
            assert(ly[k - (j.len() - ly.len())] == j[k]);
        } else if ly.len() < lx.len() {
            let k = j.len() - ly.len() - 1;
            assert(j[k] == (jy + "/"@ + ly)[k]);
            assert(j[k] == '/');
            assert(lx[k - (j.len() - lx.len())] == j[k]);
        }
        assert(lx =~= j.subrange(j.len() - lx.len(), j.len() as int));
        assert(ly =~= j.subrange(j.len() - ly.len(), j.len() as int));
        assert(jx =~= j.subrange(0, jx.len() as int));
        assert(jy =~= j.subrange(0, jy.len() as int));
        let xr = x.drop_last();
        let yr = y.drop_last();
        assert forall|i: int| 0 <= i < xr.len() implies (#[trigger] xr[i]).len() > 0 && no_slash(xr[i]) by {
            assert(xr[i] == x[i]);
        }
        assert forall|i: int| 0 <= i < yr.len() implies (#[trigger] yr[i]).len() > 0 && no_slash(yr[i]) by {
            assert(yr[i] == y[i]);
        }
        lemma_join_injective(xr, yr);
        assert(x =~= xr.push(lx));
        assert(y =~= yr.push(ly));
    }
}

/// Two paths have the same key exactly when they have the same components:
/// keys tell files apart as `PathBuf` comparison does.
pub proof fn lemma_path_key_identifies(a: Seq<char>, b: Seq<char>)
    ensures
        path_key(a) == path_key(b) <==> path_components(a) == path_components(b),
{
    if path_key(a) == path_key(b) {
        lemma_components_shape(a);
        lemma_components_shape(b);
        let ca = path_components(a);
        let cb = path_components(b);
        let ra = ca.len() > 0 && ca[0] == "/"@;
        let rb = cb.len() > 0 && cb[0] == "/"@;
        reveal_strlit("/");
        if ra && rb {
            assert(("/"@ + join_with_slash(ca.drop_first())).drop_first() =~= join_with_slash(ca.drop_first()));
            assert(("/"@ + join_with_slash(cb.drop_first())).drop_first() =~= join_with_slash(cb.drop_first()));
            lemma_join_injective(ca.drop_first(), cb.drop_first());
            assert(ca =~= seq!["/"@] + ca.drop_first());
            assert(cb =~= seq!["/"@] + cb.drop_first());
        } else if !ra && !rb {
            lemma_join_injective(ca, cb);
        } else if ra {
            assert(path_key(a)[0] == '/');
            if cb.len() > 0 {
                lemma_join_first(cb);
            }
        } else {
            assert(path_key(b)[0] == '/');
            if ca.len() > 0 {
                lemma_join_first(ca);
            }
        }
    }
}

/// A path's components: the root only first, and every other component
/// non-empty and without a slash.
proof fn lemma_components_shape(s: Seq<char>)
    ensures
        path_components(s).len() > 0 && path_components(s)[0] == "/"@ ==> plain_parts(path_components(s).drop_first()),
        !(path_components(s).len() > 0 && path_components(s)[0] == "/"@) ==> plain_parts(path_components(s)),
{
    reveal_strlit("/");
    reveal_strlit(".");
    let pieces = slash_pieces(s);
    lemma_pieces_no_slash(s);
    lemma_named_plain(pieces);
    let named = named_pieces(pieces);
    let c = path_components(s);
    if s.len() > 0 && s[0] == '/' {
        assert(c =~= seq!["/"@] + named);
        assert(c.drop_first() =~= named);
    } else if pieces[0] == "."@ {
        assert(c =~= seq!["."@] + named);
        assert(c[0] == "."@);
        assert("."@ != "/"@) by {
            assert("."@[0] != "/"@[0]);
        }
        assert forall|i: int| 0 <= i < c.len() implies (#[trigger] c[i]).len() > 0 && no_slash(c[i]) by {
            if i > 0 {
                assert(c[i] == named[i - 1]);
            } else {
                assert(c[i] == "."@);
            }
        }
    } else {
        assert(c =~= named);
        if c.len() > 0 {
            assert(no_slash(c[0]));
            assert(c[0].len() > 0);
            assert(c[0] != "/"@) by {
                assert("/"@[0] == '/');
            }
        }
    }
}

} // verus!
