//! Paths as text, with `/` between components.
use vstd::prelude::*;
use crate::text;

verus! {

/// A relative name under a base directory.
pub open spec fn joined(base: Seq<char>, name: Seq<char>) -> Seq<char> {
    if base.len() == 0 || base.last() == '/' {
        base + name
    } else {
        base.push('/') + name
    }
}

/// Puts a relative name under a base directory.
pub fn join(base: &str, name: &str) -> (r: String)
    ensures
        r@ == joined(base@, name@),
{
    let mut out = text::chars_of(base);
    if out.len() > 0 && out[out.len() - 1] != '/' {
        out.push('/');
    }
    text::push_str(&mut out, name);
    text::text_of(&out)
}

/// How many characters at the end of `s` come after its last slash.
pub open spec fn tail_len(s: Seq<char>) -> nat
    decreases s.len(),
{
    if s.len() == 0 || s.last() == '/' {
        0
    } else {
        1 + tail_len(s.drop_last())
    }
}

pub proof fn tail_len_bound(s: Seq<char>)
    ensures
        tail_len(s) <= s.len(),
    decreases s.len(),
{
    if s.len() > 0 && s.last() != '/' {
        tail_len_bound(s.drop_last());
    }
}

/// The final component of a path. Slashes and `.` at the end do not count; a
/// path that ends in `..` has none.
pub open spec fn last_component(s: Seq<char>) -> Option<Seq<char>>
    decreases s.len(),
{
    if s.len() == 0 {
        None
    } else {
        let n = tail_len(s);
        let tail = s.skip(s.len() - n);
        if n == 0 {
            last_component(s.drop_last())
        } else if tail == "."@ {
            proof {
                tail_len_bound(s);
            }
            last_component(s.take(s.len() - n))
        } else if tail == ".."@ {
            None
        } else {
            Some(tail)
        }
    }
}

/// The final component of a path.
pub fn file_name(path: &str) -> (r: Option<String>)
    ensures
        match r {
            Some(n) => last_component(path@) == Some(n@),
            None => last_component(path@) is None,
        },
{
    let s = text::chars_of(path);
    let dot = text::chars_of(".");
    let dots = text::chars_of("..");
    let mut end: usize = s.len();
    assert(s@.take(end as int) == s@);
    while end > 0
        invariant
            end <= s@.len(),
            s@ == path@,
            dot@ == "."@,
            dots@ == ".."@,
            last_component(path@) == last_component(s@.take(end as int)),
        decreases end,
    {
        let ghost head = s@.take(end as int);
        let mut start: usize = end;
        while start > 0 && s[start - 1] != '/'
            invariant
                start <= end <= s@.len(),
                head == s@.take(end as int),
                tail_len(head) == (end - start) + tail_len(s@.take(start as int)),
            decreases start,
        {
            proof {
                assert(s@.take(start as int).last() == s@[start - 1]);
                assert(s@.take(start as int).drop_last() == s@.take(start - 1));
            }
            start = start - 1;
        }
        proof {
            if start > 0 {
                assert(s@.take(start as int).last() == s@[start - 1]);
            }
            assert(tail_len(head) == end - start);
            assert(head.skip(head.len() - (end - start)) == s@.subrange(start as int, end as int));
            assert(head.take(start as int) == s@.take(start as int));
            assert(head.drop_last() == s@.take(end - 1));
        }
        if start == end {
            end = end - 1;
            continue ;
        }
        let tail = text::slice_chars(&s, start, end);
        if text::chars_equal(&tail, &dot) {
            end = start;
            continue ;
        }
        if text::chars_equal(&tail, &dots) {
            return None;
        }
        return Some(text::text_of(&tail));
    }
    None
}

/// How many leading characters of a list of paths come before the first colon.
pub open spec fn until_colon(s: Seq<char>) -> nat
    decreases s.len(),
{
    if s.len() == 0 || s[0] == ':' {
        0
    } else {
        1 + until_colon(s.drop_first())
    }
}

/// What comes before the first colon lies within the list.
pub proof fn colon_bound(s: Seq<char>)
    ensures
        until_colon(s) <= s.len(),
    decreases s.len(),
{
    if s.len() > 0 && s[0] != ':' {
        colon_bound(s.drop_first());
    }
}

/// A name joined to a directory stands below it: the path starts with the
/// directory, ends with the name, and one slash parts them.
pub proof fn joined_paths_stand_below(base: &str, name: &str, r: String)
    requires
        call_ensures(join, (base, name), r),
    ensures
        r@.len() >= base@.len() + name@.len(),
        r@.take(base@.len() as int) == base@,
        r@.skip(r@.len() - name@.len()) == name@,
        base@.len() > 0 ==> r@[r@.len() - name@.len() - 1] == '/',
        r@.len() <= base@.len() + name@.len() + 1,
        base@.len() > 0 && base@.last() == '/' ==> r@.len() == base@.len() + name@.len(),
{
    assert(joined(base@, name@).take(base@.len() as int) =~= base@);
    let n = joined(base@, name@).len() - name@.len();
    assert(joined(base@, name@).skip(n) =~= name@);
}

proof fn tail_is_name(s: Seq<char>, name: Seq<char>)
    requires
        !name.contains('/'),
        s.len() > 0 ==> s.last() == '/',
    ensures
        tail_len(s + name) == name.len(),
    decreases name.len(),
{
    let t = s + name;
    if name.len() == 0 {
        assert(t =~= s);
    } else {
        assert(t.last() == name.last());
        assert(name.contains(name.last()));
        assert(t.drop_last() =~= s + name.drop_last());
        assert forall|i: int| 0 <= i < name.drop_last().len() implies name.drop_last()[i]
            != '/' by {
            assert(name.contains(name[i]));
        }
        tail_is_name(s, name.drop_last());
    }
}

/// The file name of a path that was joined is the name that was joined to it.
pub proof fn joined_names_are_found(base: &str, name: &str, path: &str, r: String, found: Option<
    String,
>)
    requires
        call_ensures(join, (base, name), r),
        path@ == r@,
        call_ensures(file_name, (path,), found),
        name@.len() > 0,
        !name@.contains('/'),
        name@ != "."@,
        name@ != ".."@,
    ensures
        found matches Some(n) && n@ == name@,
{
    let head = if base@.len() == 0 || base@.last() == '/' {
        base@
    } else {
        base@.push('/')
    };
    tail_is_name(head, name@);
    assert((head + name@).skip(head.len() as int) =~= name@);
}

/// Whether a path names `name` right below `base`: it starts with the one, ends
/// with the other, and has nothing but a slash between them.
pub open spec fn stands_below(path: Seq<char>, base: Seq<char>, name: Seq<char>) -> bool {
    let mid = path.len() - name.len() - base.len();
    &&& 0 <= mid <= 1
    &&& path.take(base.len() as int) == base
    &&& path.skip(path.len() - name.len()) == name
    &&& mid == 1 ==> path[base.len() as int] == '/'
    &&& mid == 0 && base.len() > 0 ==> base.last() == '/'
}

/// A joined path names what was joined, below where it was joined.
pub proof fn joined_stands_below(base: Seq<char>, name: Seq<char>)
    ensures
        stands_below(joined(base, name), base, name),
{
    let p = joined(base, name);
    assert(p.take(base.len() as int) =~= base);
    assert(p.skip(p.len() - name.len()) =~= name);
}

} // verus!
