//! Paths read component by component, without touching the file system:
//! `.` and empty components are dropped and `..` steps back over the
//! component before it.

use vstd::prelude::*;
use crate::text::strings_view;

verus! {

/// The component `.`.
pub open spec fn dot() -> Seq<char> {
    seq!['.']
}

/// The component `..`.
pub open spec fn dot_dot() -> Seq<char> {
    seq!['.', '.']
}

/// Whether `s` names an absolute path: it starts with `/`.
pub open spec fn is_absolute(s: Seq<char>) -> bool {
    s.len() > 0 && s[0] == '/'
}

/// The settled components `stack` after one more component `seg`: an empty
/// component and `.` change nothing; `..` drops the last named component,
/// stays at the root of an absolute path and is kept at the front of a
/// relative one; any other component is appended.
pub open spec fn step_component(stack: Seq<Seq<char>>, seg: Seq<char>, absolute: bool) -> Seq<
    Seq<char>,
> {
    if seg.len() == 0 || seg == dot() {
        stack
    } else if seg == dot_dot() {
        if stack.len() > 0 && stack.last() != dot_dot() {
            stack.drop_last()
        } else if absolute {
            stack
        } else {
            stack.push(seg)
        }
    } else {
        stack.push(seg)
    }
}

/// The components of `s` read from character `i` on, given the components
/// `stack` settled so far and the characters `seg` of the component being
/// read; `/` ends a component.
pub open spec fn components_from(
    s: Seq<char>,
    i: nat,
    stack: Seq<Seq<char>>,
    seg: Seq<char>,
    absolute: bool,
) -> Seq<Seq<char>>
    decreases s.len() - i,
{
    if i >= s.len() {
        step_component(stack, seg, absolute)
    } else if s[i as int] == '/' {
        components_from(s, i + 1, step_component(stack, seg, absolute), Seq::empty(), absolute)
    } else {
        components_from(s, i + 1, stack, seg.push(s[i as int]), absolute)
    }
}

/// The components of the path `s`, with `.` and `..` worked out.
pub open spec fn lexical_components(s: Seq<char>) -> Seq<Seq<char>> {
    components_from(s, 0, Seq::empty(), Seq::empty(), is_absolute(s))
}

/// Whether the path `p` names the directory `dir` or lies below it, read
/// component by component: both are absolute or both relative, and the
/// components of `dir` begin those of `p`.
pub open spec fn lexically_within(dir: Seq<char>, p: Seq<char>) -> bool {
    &&& is_absolute(dir) == is_absolute(p)
    &&& lexical_components(dir).is_prefix_of(lexical_components(p))
}

/// Whether `s` is the component `..`.
fn is_dot_dot(s: &str) -> (b: bool)
    ensures
        b == (s@ == dot_dot()),
{
    let n = s.unicode_len();
    if n == 2 && s.get_char(0) == '.' && s.get_char(1) == '.' {
        assert(s@ =~= dot_dot());
        true
    } else {
        false
    }
}

/// Settles one more component `seg` onto `stack`.
fn settle(stack: &mut Vec<String>, seg: &str, absolute: bool)
    ensures
        strings_view(final(stack)@) == step_component(strings_view(old(stack)@), seg@, absolute),
{
    let ghost pre = strings_view(stack@);
    let n = seg.unicode_len();
    if n == 0 {
        return;
    }
    if n == 1 && seg.get_char(0) == '.' {
        assert(seg@ =~= dot());
        return;
    }
    if is_dot_dot(seg) {
        let k = stack.len();
        if k > 0 && !is_dot_dot(stack[k - 1].as_str()) {
            let _ = stack.pop();
            assert(strings_view(stack@) =~= pre.drop_last());
        } else if !absolute {
            stack.push(seg.to_owned());
            assert(strings_view(stack@) =~= pre.push(seg@));
        }
        return;
    }
    stack.push(seg.to_owned());
    assert(strings_view(stack@) =~= pre.push(seg@));
}

/// The components of the path `s`, with `.` and `..` worked out.
pub fn components(s: &str) -> (r: Vec<String>)
    ensures
        strings_view(r@) == lexical_components(s@),
{
    let n = s.unicode_len();
    let absolute = n > 0 && s.get_char(0) == '/';
    let mut stack: Vec<String> = Vec::new();
    let mut start: usize = 0;
    let mut i: usize = 0;
    assert(strings_view(stack@) =~= Seq::<Seq<char>>::empty());
    assert(s@.subrange(0, 0) =~= Seq::<char>::empty());
    while i < n
        invariant
            n == s@.len(),
            start <= i <= n,
            absolute == is_absolute(s@),
            lexical_components(s@) == components_from(
                s@,
                i as nat,
                strings_view(stack@),
                s@.subrange(start as int, i as int),
                absolute,
            ),
        decreases n - i,
    {
        if s.get_char(i) == '/' {
            let seg = s.substring_char(start, i);
            settle(&mut stack, seg, absolute);
            start = i + 1;
            assert(s@.subrange(start as int, start as int) =~= Seq::<char>::empty());
        } else {
            assert(s@.subrange(start as int, i + 1) =~= s@.subrange(start as int, i as int).push(
                s@[i as int],
            ));
        }
        i = i + 1;
    }
    let seg = s.substring_char(start, n);
    settle(&mut stack, seg, absolute);
    stack
}

/// Whether the components `a` begin the components `b`.
fn components_prefix(a: &Vec<String>, b: &Vec<String>) -> (r: bool)
    ensures
        r == strings_view(a@).is_prefix_of(strings_view(b@)),
{
    if a.len() > b.len() {
        return false;
    }
    let mut i: usize = 0;
    while i < a.len()
        invariant
            a@.len() <= b@.len(),
            i <= a@.len(),
            forall|j: int| 0 <= j < i ==> a@[j]@ == b@[j]@,
        decreases a@.len() - i,
    {
        if a[i] != b[i] {
            assert(strings_view(a@)[i as int] != strings_view(b@).subrange(0, a@.len() as int)[i as int]);
            return false;
        }
        i = i + 1;
    }
    assert(strings_view(a@) =~= strings_view(b@).subrange(0, a@.len() as int));
    true
}

/// Whether the path `p` names the directory `dir` or lies below it, read
/// component by component.
pub fn within(dir: &str, p: &str) -> (b: bool)
    ensures
        b == lexically_within(dir@, p@),
{
    let dn = dir.unicode_len();
    let pn = p.unicode_len();
    let dir_absolute = dn > 0 && dir.get_char(0) == '/';
    let p_absolute = pn > 0 && p.get_char(0) == '/';
    if dir_absolute != p_absolute {
        return false;
    }
    let dc = components(dir);
    let pc = components(p);
    components_prefix(&dc, &pc)
}

} // verus!
