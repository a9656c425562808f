//! File names and extensions of paths.

use vstd::prelude::*;

use crate::text::{
    chars_of, copy_range, lemma_split_nonempty, lower_chars, lower_seq, split_chars, split_on, views,
};

verus! {

/// The name a path ends in, from its pieces between `/`s: empty pieces
/// and `.` are skipped, and a path ending in `..` names nothing.
pub open spec fn last_name(parts: Seq<Seq<char>>) -> Option<Seq<char>>
    decreases parts.len(),
{
    if parts.len() == 0 {
        None
    } else if parts.last().len() == 0 || parts.last() == "."@ {
        last_name(parts.drop_last())
    } else if parts.last() == ".."@ {
        None
    } else {
        Some(parts.last())
    }
}

/// The final component of a path, as std's `Path::file_name` returns it on
/// Unix: `None` when the path ends in `..` or has no final component.
pub open spec fn path_file_name(path: Seq<char>) -> Option<Seq<char>> {
    last_name(split_on(path, '/'))
}

/// No piece of a split holds the separator.
proof fn lemma_split_no_sep(s: Seq<char>, sep: char)
    ensures
        forall|i: int|
            0 <= i < split_on(s, sep).len() ==> !(#[trigger] split_on(s, sep)[i]).contains(sep),
    decreases s.len(),
{
    if s.len() > 0 {
        lemma_split_no_sep(s.drop_last(), sep);
        lemma_split_nonempty(s.drop_last(), sep);
        let r = split_on(s.drop_last(), sep);
        if s.last() != sep {
            let q = r.last().push(s.last());
            assert(!r[r.len() - 1].contains(sep));
            assert forall|k: int| 0 <= k < q.len() implies q[k] != sep by {
                if k < r.last().len() {
                    assert(q[k] == r.last()[k]);
                    assert(r.last().contains(r.last()[k]));
                }
            }
            assert(!q.contains(sep));
            assert forall|i: int| 0 <= i < split_on(s, sep).len() implies !(
            #[trigger] split_on(s, sep)[i]).contains(sep) by {
                if i == r.len() - 1 {
                    assert(split_on(s, sep)[i] == q);
                } else {
                    assert(split_on(s, sep)[i] == r[i]);
                }
            }
        } else {
            assert forall|i: int| 0 <= i < split_on(s, sep).len() implies !(
            #[trigger] split_on(s, sep)[i]).contains(sep) by {
                if i < r.len() {
                    assert(split_on(s, sep)[i] == r[i]);
                } else {
                    assert(split_on(s, sep)[i] =~= Seq::<char>::empty());
                }
            }
        }
    }
}

/// The final component of a path (std's `Path::file_name`): never empty
/// and never holding `/`.
pub(crate) fn file_name(path: &str) -> (r: Option<String>)
    ensures
        r is Some <==> path_file_name(path@) is Some,
        r matches Some(n) ==> n@ == path_file_name(path@)->0 && !n@.contains('/') && n@.len()
            > 0,
{
    let parts = split_chars(chars_of(path).as_slice(), '/');
    let ghost ps = views(parts@);
    proof {
        lemma_split_no_sep(path@, '/');
        reveal_strlit(".");
        reveal_strlit("..");
    }
    let mut i: usize = parts.len();
    assert(ps.take(i as int) =~= ps);
    while i > 0
        invariant
            i <= parts@.len(),
            ps == views(parts@),
            ps == split_on(path@, '/'),
            last_name(ps) == last_name(ps.take(i as int)),
            ".."@.len() == 2 && ".."@[0] == '.' && ".."@[1] == '.',
            "."@.len() == 1 && "."@[0] == '.',
        decreases i,
    {
        let p = parts[i - 1].as_slice();
        assert(ps[i - 1] == parts@[i - 1]@);
        assert(ps.take(i as int).drop_last() =~= ps.take(i - 1));
        assert(ps.take(i as int).last() == ps[i - 1]);
        let dot = p.len() == 1 && p[0] == '.';
        let dotdot = p.len() == 2 && p[0] == '.' && p[1] == '.';
        assert(dot == (p@ == "."@)) by {
            if dot {
                assert(p@ =~= "."@);
            }
        }
        assert(dotdot == (p@ == ".."@)) by {
            if dotdot {
                assert(p@ =~= ".."@);
            }
        }
        if p.len() == 0 || dot {
            i = i - 1;
        } else if dotdot {
            return None;
        } else {
            let n = crate::text::string_of(p);
            proof {
                lemma_split_no_sep(path@, '/');
                assert(!split_on(path@, '/')[i - 1].contains('/'));
            }
            return Some(n);
        }
    }
    assert(ps.take(0) =~= Seq::<Seq<char>>::empty());
    None
}

/// The index of the last `.` in `n`, or -1 when there is none.
pub open spec fn last_dot(n: Seq<char>) -> int
    decreases n.len(),
{
    if n.len() == 0 {
        -1
    } else if n.last() == '.' {
        n.len() - 1
    } else {
        last_dot(n.drop_last())
    }
}

/// The extension of a file name: the part after its last `.`; none when
/// there is no `.`, when the only `.` starts the name, or for `..`.
pub open spec fn name_extension(n: Seq<char>) -> Option<Seq<char>> {
    if n == ".."@ || last_dot(n) <= 0 {
        None
    } else {
        Some(n.skip(last_dot(n) + 1))
    }
}

/// std's `Path::extension`: the extension of the path's file name, none
/// when it has no file name.
pub open spec fn extension_spec(path: Seq<char>) -> Option<Seq<char>> {
    match path_file_name(path) {
        None => None,
        Some(n) => name_extension(n),
    }
}

/// The extension of a path, lower-cased, or empty when it has none.
pub open spec fn lower_extension_spec(path: Seq<char>) -> Seq<char> {
    match extension_spec(path) {
        Some(e) => lower_seq(e),
        None => Seq::empty(),
    }
}

/// The index of the last `.` in a name.
fn find_last_dot(n: &[char]) -> (r: Option<usize>)
    ensures
        match r {
            Some(k) => k == last_dot(n@) && k < n@.len(),
            None => last_dot(n@) == -1,
        },
{
    let mut k: usize = n.len();
    assert(n@.take(n@.len() as int) =~= n@);
    while k > 0 && n[k - 1] != '.'
        invariant
            k <= n@.len(),
            last_dot(n@) == last_dot(n@.take(k as int)),
        decreases k,
    {
        assert(n@.take(k as int).drop_last() =~= n@.take(k - 1));
        k = k - 1;
    }
    if k == 0 {
        assert(n@.take(0) =~= Seq::<char>::empty());
        None
    } else {
        assert(n@.take(k as int).last() == '.');
        Some(k - 1)
    }
}

/// The extension of a file name.
pub fn extension_of_name(name: &str) -> (r: Option<String>)
    ensures
        match name_extension(name@) {
            Some(e) => r matches Some(x) && x@ == e,
            None => r is None,
        },
{
    let v = chars_of(name);
    proof {
        reveal_strlit("..");
    }
    if v.len() == 2 && v[0] == '.' && v[1] == '.' {
        assert(v@ =~= ".."@);
        return None;
    }
    assert(v@ != ".."@) by {
        if v@ == ".."@ {
            assert(v@.len() == 2);
            assert(v@[0] == '.' && v@[1] == '.');
        }
    }
    match find_last_dot(v.as_slice()) {
        None => None,
        Some(k) => if k == 0 {
            None
        } else {
            let e = copy_range(v.as_slice(), k + 1, v.len());
            assert(e@ =~= v@.skip(k + 1));
            Some(crate::text::string_of(e.as_slice()))
        },
    }
}

/// The extension of a path (std's `Path::extension`).
pub fn extension(path: &str) -> (r: Option<String>)
    ensures
        r is Some <==> extension_spec(path@) is Some,
        r matches Some(e) ==> e@ == extension_spec(path@)->0,
{
    match file_name(path) {
        None => None,
        Some(n) => extension_of_name(n.as_str()),
    }
}

/// The extension of a path, lower-cased, or empty when it has none.
pub fn lower_extension(path: &str) -> (r: String)
    ensures
        r@ == lower_extension_spec(path@),
{
    match extension(path) {
        Some(e) => {
            let v = chars_of(e.as_str());
            let l = lower_chars(v.as_slice());
            crate::text::string_of(l.as_slice())
        },
        None => String::new(),
    }
}

} // verus!
