//! Construction of the search PATH handed to a spawned command: the
//! directory holding the running executable and the data directory are put
//! in front of the inherited PATH when they are not already among its
//! colon-separated segments. The function is pure; the caller reads the
//! current PATH and applies the result to the child process only.

use vstd::prelude::*;
use vstd::string::StrSliceExecFns;
use vstd::string::StringExecFns;
use crate::text::str_eq;

verus! {

/// The colon-separated segments of `s`, in order, empty segments included;
/// the empty string has the single segment `""`.
pub open spec fn split_segments(s: Seq<char>) -> Seq<Seq<char>>
    decreases s.len(),
{
    if s.len() == 0 {
        seq![Seq::<char>::empty()]
    } else if s[0] == ':' {
        seq![Seq::<char>::empty()] + split_segments(s.drop_first())
    } else {
        let rest = split_segments(s.drop_first());
        seq![seq![s[0]] + rest[0]] + rest.drop_first()
    }
}

/// Holds when `seg` is one of the colon-separated segments of `s`.
pub open spec fn has_segment(s: Seq<char>, seg: Seq<char>) -> bool {
    split_segments(s).contains(seg)
}

/// How many of the listed segments equal `seg`.
pub open spec fn count_matching(parts: Seq<Seq<char>>, seg: Seq<char>) -> nat
    decreases parts.len(),
{
    if parts.len() == 0 {
        0
    } else {
        count_matching(parts.drop_first(), seg) + if parts[0] == seg {
            1nat
        } else {
            0
        }
    }
}

/// How often `seg` occurs among the colon-separated segments of `s`.
pub open spec fn segment_count(s: Seq<char>, seg: Seq<char>) -> nat {
    count_matching(split_segments(s), seg)
}

/// A string splits into at least one segment.
pub proof fn lemma_split_nonempty(s: Seq<char>)
    ensures
        split_segments(s).len() >= 1,
    decreases s.len(),
{
    if s.len() == 0 {
    } else {
        lemma_split_nonempty(s.drop_first());
    }
}

/// A string without a colon is its own single segment.
pub proof fn lemma_split_single(s: Seq<char>)
    requires
        !s.contains(':'),
    ensures
        split_segments(s) =~~= seq![s],
    decreases s.len(),
{
    if s.len() == 0 {
        assert(split_segments(s) == seq![Seq::<char>::empty()]);
        assert(s =~= Seq::<char>::empty());
    } else {
        assert(s[0] != ':');
        assert(!s.drop_first().contains(':')) by {
            assert forall|k: int| 0 <= k < s.drop_first().len() implies s.drop_first()[k]
                != ':' by {
                assert(s.drop_first()[k] == s[k + 1]);
            }
        }
        lemma_split_single(s.drop_first());
        assert(seq![s[0]] + s.drop_first() =~= s);
    }
}

/// Splitting cuts at a colon: the segments of `a + ":" + b` are the
/// segments of `a` followed by those of `b`.
pub proof fn lemma_split_concat(a: Seq<char>, b: Seq<char>)
    ensures
        split_segments(a + seq![':'] + b) =~~= split_segments(a) + split_segments(b),
    decreases a.len(),
{
    let s = a + seq![':'] + b;
    if a.len() == 0 {
        assert(s[0] == ':');
        assert(s.drop_first() =~= b);
    } else if a[0] == ':' {
        assert(s[0] == ':');
        lemma_split_concat(a.drop_first(), b);
        assert(s.drop_first() =~= a.drop_first() + seq![':'] + b);
    } else {
        assert(s[0] == a[0]);
        assert(s[0] != ':');
        lemma_split_concat(a.drop_first(), b);
        assert(s.drop_first() =~= a.drop_first() + seq![':'] + b);
        let u = split_segments(a.drop_first());
        let v = split_segments(b);
        lemma_split_nonempty(a.drop_first());
        let r = split_segments(s.drop_first());
        assert(r =~~= u + v);
        assert(r[0] == u[0]);
        assert(r.drop_first() =~~= u.drop_first() + v);
        assert(split_segments(s) == seq![seq![s[0]] + r[0]] + r.drop_first());
        assert(split_segments(a) == seq![seq![a[0]] + u[0]] + u.drop_first());
        assert(split_segments(s) =~~= split_segments(a) + v);
    }
}

/// Counting matches distributes over concatenation of segment lists.
pub proof fn lemma_count_concat(a: Seq<Seq<char>>, b: Seq<Seq<char>>, seg: Seq<char>)
    ensures
        count_matching(a + b, seg) == count_matching(a, seg) + count_matching(b, seg),
    decreases a.len(),
{
    if a.len() == 0 {
        assert(a + b =~~= b);
    } else {
        assert((a + b).drop_first() =~~= a.drop_first() + b);
        assert((a + b)[0] == a[0]);
        lemma_count_concat(a.drop_first(), b, seg);
    }
}

/// The view of an optional string slice.
pub open spec fn opt_str_view(s: Option<&str>) -> Option<Seq<char>> {
    match s {
        Some(s) => Some(s@),
        None => None,
    }
}

/// The PATH a spawned command searches, built from the inherited PATH, the
/// directory holding the running executable (when known), and the data
/// directory. A directory is prepended only when it is not already a
/// segment of the inherited PATH; when both would be prepended and are
/// equal, one copy is kept. The inherited PATH always follows at the end.
pub open spec fn spec_augmented_path(
    path: Seq<char>,
    exe_dir: Option<Seq<char>>,
    data_dir: Seq<char>,
) -> Seq<char> {
    let add_exe = exe_dir is Some && !has_segment(path, exe_dir->0);
    let add_data = !has_segment(path, data_dir) && !(add_exe && data_dir == exe_dir->0);
    let exe_part = if add_exe {
        exe_dir->0 + seq![':']
    } else {
        Seq::<char>::empty()
    };
    let data_part = if add_data {
        data_dir + seq![':']
    } else {
        Seq::<char>::empty()
    };
    exe_part + data_part + path
}

/// Whether `seg` occurs among the colon-separated segments of `path`,
/// by exact string comparison of each segment.
pub fn has_path_segment(path: &str, seg: &str) -> (r: bool)
    ensures
        r == has_segment(path@, seg@),
{
    let n = path.unicode_len();
    let ghost mut checked: Seq<Seq<char>> = Seq::empty();
    let mut start: usize = 0;
    let mut i: usize = 0;
    proof {
        assert(path@.skip(0) =~= path@);
        assert(checked + split_segments(path@.skip(0)) =~~= split_segments(path@));
    }
    while i < n
        invariant
            n == path@.len(),
            start <= i <= n,
            split_segments(path@) =~~= checked + split_segments(path@.skip(start as int)),
            forall|k: int| 0 <= k < checked.len() ==> checked[k] != seg@,
            forall|k: int| start <= k < i ==> path@[k] != ':',
        decreases n - i,
    {
        if path.get_char(i) == ':' {
            let part = path.substring_char(start, i);
            proof {
                assert(part@ =~= path@.subrange(start as int, i as int));
                assert(!part@.contains(':')) by {
                    assert forall|k: int| 0 <= k < part@.len() implies part@[k] != ':' by {
                        assert(part@[k] == path@[start + k]);
                    }
                }
                lemma_split_single(part@);
                assert(path@.skip(start as int) =~= part@ + seq![':'] + path@.skip(i as int + 1));
                lemma_split_concat(part@, path@.skip(i as int + 1));
            }
            if str_eq(part, seg) {
                proof {
                    let ss = split_segments(path@.skip(start as int));
                    assert(ss[0] == part@);
                    assert(split_segments(path@)[checked.len() as int] == part@);
                }
                return true;
            }
            proof {
                checked = checked + seq![part@];
                assert(split_segments(path@) =~~= checked + split_segments(
                    path@.skip(i as int + 1),
                ));
            }
            start = i + 1;
        }
        i = i + 1;
    }
    let part = path.substring_char(start, n);
    proof {
        assert(part@ =~= path@.subrange(start as int, n as int));
        assert(part@ =~= path@.skip(start as int));
        assert(!part@.contains(':')) by {
            assert forall|k: int| 0 <= k < part@.len() implies part@[k] != ':' by {
                assert(part@[k] == path@[start + k]);
            }
        }
        lemma_split_single(part@);
    }
    if str_eq(part, seg) {
        proof {
            assert(split_segments(path@)[checked.len() as int] == part@);
        }
        return true;
    }
    proof {
        let full = split_segments(path@);
        assert(full =~~= checked + seq![part@]);
        assert forall|k: int| 0 <= k < full.len() implies full[k] != seg@ by {
            if k < checked.len() {
                assert(full[k] == checked[k]);
            } else {
                assert(full[k] == part@);
            }
        }
    }
    false
}

/// Builds the PATH for a spawned command; see [`spec_augmented_path`] for
/// the exact shape of the result.
pub fn augmented_path(current_path: &str, exe_dir: Option<&str>, data_dir: &str) -> (r: String)
    ensures
        r@ == spec_augmented_path(current_path@, opt_str_view(exe_dir), data_dir@),
{
    let exe_added: bool = match exe_dir {
        Some(e) => !has_path_segment(current_path, e),
        None => false,
    };
    let exe_is_data: bool = match exe_dir {
        Some(e) => str_eq(e, data_dir),
        None => false,
    };
    let data_added: bool = !has_path_segment(current_path, data_dir) && !(exe_added && exe_is_data);
    let mut r = String::new();
    proof {
        reveal_strlit(":");
    }
    if exe_added {
        if let Some(e) = exe_dir {
            r.append(e);
            r.append(":");
        }
    }
    if data_added {
        r.append(data_dir);
        r.append(":");
    }
    r.append(current_path);
    proof {
        assert(r@ =~= spec_augmented_path(current_path@, opt_str_view(exe_dir), data_dir@));
    }
    r
}

/// Law: when the data directory is not already a segment of the PATH (and
/// itself contains no colon, so that it can be a segment at all), the
/// built PATH contains it as a segment.
pub proof fn lemma_augmented_path_adds_data_dir(
    path: Seq<char>,
    exe_dir: Option<Seq<char>>,
    data_dir: Seq<char>,
)
    requires
        !has_segment(path, data_dir),
        !data_dir.contains(':'),
    ensures
        has_segment(spec_augmented_path(path, exe_dir, data_dir), data_dir),
{
    let r = spec_augmented_path(path, exe_dir, data_dir);
    let add_exe = exe_dir is Some && !has_segment(path, exe_dir->0);
    let add_data = !has_segment(path, data_dir) && !(add_exe && data_dir == exe_dir->0);
    lemma_split_single(data_dir);
    if add_data {
        let exe_part = if add_exe {
            exe_dir->0 + seq![':']
        } else {
            Seq::<char>::empty()
        };
        let head = exe_part + data_dir;
        assert(r =~= head + seq![':'] + path);
        lemma_split_concat(head, path);
        if add_exe {
            assert(head =~= exe_dir->0 + seq![':'] + data_dir);
            lemma_split_concat(exe_dir->0, data_dir);
            let k = split_segments(exe_dir->0).len() as int;
            lemma_split_nonempty(exe_dir->0);
            assert(split_segments(head)[k] == data_dir);
            assert(split_segments(r)[k] == data_dir);
        } else {
            assert(head =~= data_dir);
            assert(split_segments(r)[0] == data_dir);
        }
    } else {
        // The executable directory equals the data directory and is
        // prepended itself.
        assert(add_exe && data_dir == exe_dir->0);
        assert(r =~= data_dir + seq![':'] + path);
        lemma_split_concat(data_dir, path);
        assert(split_segments(r)[0] == data_dir);
    }
}

/// Law: when the data directory is already a segment of the PATH, the
/// built PATH holds it exactly as often as the inherited PATH does: no
/// second copy is introduced. (Stated for an executable directory that
/// contains no colon; a colon inside it would split into further
/// segments.)
pub proof fn lemma_augmented_path_keeps_data_dir_count(
    path: Seq<char>,
    exe_dir: Option<Seq<char>>,
    data_dir: Seq<char>,
)
    requires
        has_segment(path, data_dir),
        exe_dir is Some ==> !exe_dir->0.contains(':'),
    ensures
        segment_count(spec_augmented_path(path, exe_dir, data_dir), data_dir) == segment_count(
            path,
            data_dir,
        ),
{
    let r = spec_augmented_path(path, exe_dir, data_dir);
    let add_exe = exe_dir is Some && !has_segment(path, exe_dir->0);
    if add_exe {
        let e = exe_dir->0;
        assert(e != data_dir) by {
            if e == data_dir {
                assert(has_segment(path, e));
            }
        }
        assert(r =~= e + seq![':'] + path);
        lemma_split_concat(e, path);
        lemma_split_single(e);
        lemma_count_concat(seq![e], split_segments(path), data_dir);
        assert(count_matching(seq![e], data_dir) == 0) by {
            assert(seq![e].drop_first() =~~= Seq::<Seq<char>>::empty());
            assert(count_matching(Seq::<Seq<char>>::empty(), data_dir) == 0);
            assert(seq![e][0] == e);
        }
        assert(count_matching(split_segments(r), data_dir) == count_matching(
            split_segments(path),
            data_dir,
        ));
    } else {
        assert(r =~= path);
    }
}

} // verus!
