//! File-system paths as the bytes of Unix paths: joining as `PathBuf::push` does on
//! Unix, the last component as `Path::components` gives it, and the user's
//! configuration directory.
use vstd::prelude::*;

verus! {

/// The UTF-8 bytes of `s`.
pub open spec fn utf8(s: Seq<char>) -> Seq<u8> {
    vstd::utf8::encode_utf8(s)
}

/// The byte of `/`.
pub open spec fn slash() -> u8 {
    47u8
}

/// The bytes of an ASCII text are its characters one by one.
pub proof fn lemma_ascii_utf8(s: Seq<char>)
    requires
        vstd::utf8::is_ascii_chars(s),
    ensures
        utf8(s) == s.map_values(|c: char| c as u8),
{
    vstd::utf8::is_ascii_chars_encode_utf8(s);
    assert(utf8(s) =~= s.map_values(|c: char| c as u8));
}

/// `base` with `part` appended as `PathBuf::push` does on Unix: an absolute `part`
/// replaces `base`; otherwise a `/` separates the two unless `base` is empty or
/// already ends with `/`.
pub open spec fn join_path(base: Seq<u8>, part: Seq<u8>) -> Seq<u8> {
    if part.len() > 0 && part[0] == slash() {
        part
    } else if base.len() > 0 && base.last() != slash() {
        base + seq![slash()] + part
    } else {
        base + part
    }
}

/// A copy of `b[from..to]`.
pub fn copy_bytes(b: &[u8], from: usize, to: usize) -> (r: Vec<u8>)
    requires
        from <= to <= b@.len(),
    ensures
        r@ == b@.subrange(from as int, to as int),
{
    let mut r: Vec<u8> = Vec::new();
    let mut i = from;
    while i < to
        invariant
            from <= i <= to <= b@.len(),
            r@ == b@.subrange(from as int, i as int),
        decreases to - i,
    {
        r.push(b[i]);
        assert(r@ =~= b@.subrange(from as int, i + 1));
        i += 1;
    }
    r
}

/// Appends the bytes `b` to `out`.
pub fn push_bytes(out: &mut Vec<u8>, b: &[u8])
    ensures
        final(out)@ == old(out)@ + b@,
{
    let mut i: usize = 0;
    while i < b.len()
        invariant
            i <= b@.len(),
            out@ == old(out)@ + b@.subrange(0, i as int),
        decreases b.len() - i,
    {
        out.push(b[i]);
        assert(out@ =~= old(out)@ + b@.subrange(0, i + 1));
        i += 1;
    }
    assert(b@.subrange(0, b@.len() as int) =~= b@);
}

/// Joins `part` onto `base` (see `join_path`).
pub fn join(base: &[u8], part: &[u8]) -> (r: Vec<u8>)
    ensures
        r@ == join_path(base@, part@),
{
    if part.len() > 0 && part[0] == 47u8 {
        return copy_bytes(part, 0, part.len());
    }
    let mut r = copy_bytes(base, 0, base.len());
    if base.len() > 0 && base[base.len() - 1] != 47u8 {
        r.push(47u8);
    }
    push_bytes(&mut r, part);
    proof {
        assert(base@.subrange(0, base@.len() as int) =~= base@);
    }
    r
}

/// The directory that stands in for the user's configuration directory when none is known.
pub open spec fn fallback_config_dir() -> Seq<u8> {
    utf8("~/.config"@)
}

/// The user's configuration directory, or `~/.config` when none is known.
pub open spec fn config_base(config_dir: Option<Vec<u8>>) -> Seq<u8> {
    match config_dir {
        Some(d) => d@,
        None => fallback_config_dir(),
    }
}

/// The directory of this shell's own files: `niri-quickshell` in the configuration directory.
pub open spec fn app_dir(config_dir: Option<Vec<u8>>) -> Seq<u8> {
    join_path(config_base(config_dir), utf8("niri-quickshell"@))
}

/// `dirs::config_dir`: the user's configuration directory, as the bytes of its path.
/// What it returns depends on the environment (`$XDG_CONFIG_HOME`, else
/// `$HOME/.config` on Linux), so nothing is stated of it.
#[verifier::external_body]
pub(crate) fn config_dir() -> Option<Vec<u8>> {
    match dirs::config_dir() {
        Some(p) => Some(p.into_os_string().into_encoded_bytes()),
        None => None,
    }
}

/// The configuration directory, `~/.config` when `config_dir` is `None`.
pub fn base_dir(config_dir: &Option<Vec<u8>>) -> (r: Vec<u8>)
    ensures
        r@ == config_base(*config_dir),
{
    match config_dir {
        Some(d) => copy_bytes(d.as_slice(), 0, d.len()),
        None => {
            let b = "~/.config".as_bytes();
            copy_bytes(b, 0, b.len())
        },
    }
}

/// The bytes after the last `/` of `p` (all of `p` when it holds no `/`).
pub open spec fn trailing_segment(p: Seq<u8>) -> Seq<u8>
    decreases p.len(),
{
    if p.len() == 0 || p.last() == slash() {
        seq![]
    } else {
        trailing_segment(p.drop_last()).push(p.last())
    }
}

/// The last component of the Unix path `p`, as `Path::components` yields it when it
/// names a file or directory: the last `/`-separated segment that is neither empty
/// nor `.`; empty when there is none.
pub open spec fn last_component(p: Seq<u8>) -> Seq<u8>
    decreases p.len(),
{
    if p.len() == 0 {
        seq![]
    } else if p.last() == slash() {
        last_component(p.drop_last())
    } else if trailing_segment(p) == seq![46u8] {
        last_component(p.drop_last())
    } else {
        trailing_segment(p)
    }
}

proof fn lemma_trailing_segment_after_slash(x: Seq<u8>, t: Seq<u8>)
    requires
        forall|i: int| 0 <= i < t.len() ==> t[i] != slash(),
    ensures
        trailing_segment(x + seq![slash()] + t) == t,
    decreases t.len(),
{
    let p = x + seq![slash()] + t;
    if t.len() == 0 {
        assert(p.last() == slash());
    } else {
        assert(p.drop_last() == x + seq![slash()] + t.drop_last());
        lemma_trailing_segment_after_slash(x, t.drop_last());
        assert(t.drop_last().push(t.last()) == t);
    }
}

/// A path whose last part is `/`, then a non-empty name without `/` other than `.`,
/// has that name as its last component.
pub proof fn lemma_last_component_of_join(x: Seq<u8>, t: Seq<u8>)
    requires
        t.len() > 0,
        t != seq![46u8],
        forall|i: int| 0 <= i < t.len() ==> t[i] != slash(),
    ensures
        last_component(x + seq![slash()] + t) == t,
{
    let p = x + seq![slash()] + t;
    lemma_trailing_segment_after_slash(x, t);
    assert(p.last() == t.last());
}

/// Whether the last component of `path` is `name`, as `Path::ends_with` decides it for
/// a `name` that is a single file name.
pub fn last_component_is(path: &[u8], name: &[u8]) -> (r: bool)
    ensures
        r == (last_component(path@) == name@),
{
    let v = path;
    let n = name;
    let mut j: usize = v.len();
    assert(v@.take(j as int) == v@);
    loop
        invariant
            v@ == path@,
            n@ == name@,
            j <= v@.len(),
            last_component(v@) == last_component(v@.take(j as int)),
        decreases j,
    {
        if j == 0 {
            assert(last_component(v@.take(0)) == Seq::<u8>::empty());
            assert(n@.len() == 0 ==> n@ =~= Seq::<u8>::empty());
            return n.len() == 0;
        }
        let ghost q = v@.take(j as int);
        if v[j - 1] == 47u8 {
            assert(q.drop_last() == v@.take(j - 1));
            j -= 1;
        } else {
            let mut k: usize = j;
            while k > 0 && v[k - 1] != 47u8
                invariant
                    k <= j <= v@.len(),
                    q == v@.take(j as int),
                    q.last() != slash(),
                    j > 0,
                    trailing_segment(q) == trailing_segment(v@.take(k as int)) + v@.subrange(
                        k as int,
                        j as int,
                    ),
                decreases k,
            {
                proof {
                    let w = v@.take(k as int);
                    assert(w.drop_last() == v@.take(k - 1));
                    assert(v@.subrange(k - 1, j as int) == seq![w.last()] + v@.subrange(
                        k as int,
                        j as int,
                    ));
                }
                k -= 1;
            }
            proof {
                assert(trailing_segment(v@.take(k as int)) == Seq::<u8>::empty());
                assert(trailing_segment(q) == v@.subrange(k as int, j as int));
            }
            if j - k == 1 && v[k] == 46u8 {
                assert(trailing_segment(q) =~= seq![46u8]);
                assert(q.drop_last() == v@.take(j - 1));
                j -= 1;
            } else {
                proof {
                    if trailing_segment(q) == seq![46u8] {
                        assert(v@.subrange(k as int, j as int).len() == 1);
                        assert(v@.subrange(k as int, j as int)[0] == v@[k as int]);
                    }
                }
                assert(last_component(v@) == v@.subrange(k as int, j as int));
                if j - k != n.len() {
                    return false;
                }
                let mut i: usize = 0;
                while i < n.len()
                    invariant
                        v@ == path@,
                        n@ == name@,
                        i <= n@.len(),
                        j - k == n@.len(),
                        k <= j <= v@.len(),
                        last_component(v@) == v@.subrange(k as int, j as int),
                        forall|m: int| 0 <= m < i ==> v@[k + m] == n@[m],
                    decreases n.len() - i,
                {
                    if v[k + i] != n[i] {
                        assert(v@.subrange(k as int, j as int)[i as int] != n@[i as int]);
                        return false;
                    }
                    i += 1;
                }
                assert(v@.subrange(k as int, j as int) =~= n@);
                return true;
            }
        }
    }
}

/// Joining `a`, then `c`, is joining `a/c` at once, when `a` is a non-empty relative
/// path that does not end with `/` and `c` is relative; an absolute `c` replaces both.
pub proof fn lemma_join_join(b: Seq<u8>, a: Seq<u8>, c: Seq<u8>)
    requires
        a.len() > 0,
        a[0] != slash(),
        a.last() != slash(),
    ensures
        join_path(join_path(b, a), c) == (if c.len() > 0 && c[0] == slash() {
            c
        } else {
            join_path(b, a + seq![slash()] + c)
        }),
{
    let ac = a + seq![slash()] + c;
    assert(ac[0] == a[0]);
    let ba = join_path(b, a);
    assert(ba.last() == a.last());
    if !(c.len() > 0 && c[0] == slash()) {
        assert(join_path(b, ac) =~= ba + seq![slash()] + c);
    }
}

} // verus!
