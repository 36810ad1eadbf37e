//! Names of the sockets over which a running terminal takes messages.

use vstd::prelude::*;

use crate::text::{chars_of, string_of};

verus! {

/// `s` with every `/` written as `-`.
pub open spec fn dashed(s: Seq<char>) -> Seq<char> {
    Seq::new(
        s.len(),
        |i: int| if s[i] == '/' {
            '-'
        } else {
            s[i]
        },
    )
}

/// The start of a socket's name.
pub open spec fn prefix_name() -> Seq<char> {
    seq!['A', 'l', 'a', 'c', 'r', 'i', 't', 't', 'y', '-']
}

/// The end of a socket's name.
pub open spec fn socket_suffix() -> Seq<char> {
    seq!['.', 's', 'o', 'c', 'k']
}

/// The name of the display that sockets are named after: the Wayland
/// display if there is one, else the X11 display, else nothing.
pub open spec fn display_name(wayland_display: Option<Seq<char>>, display: Option<Seq<char>>)
    -> Seq<char> {
    match wayland_display {
        Some(name) => name,
        None => match display {
            Some(name) => name,
            None => Seq::empty(),
        },
    }
}

/// The start of the name of every socket for the given display.
pub open spec fn spec_socket_prefix(
    wayland_display: Option<Seq<char>>,
    display: Option<Seq<char>>,
) -> Seq<char> {
    prefix_name() + dashed(display_name(wayland_display, display))
}

/// Whether `name` starts with `prefix` and ends with the suffix of
/// sockets.
pub open spec fn spec_is_socket_name(name: Seq<char>, prefix: Seq<char>) -> bool {
    &&& prefix.len() <= name.len()
    &&& name.subrange(0, prefix.len() as int) == prefix
    &&& socket_suffix().len() <= name.len()
    &&& name.subrange(name.len() - socket_suffix().len(), name.len() as int) == socket_suffix()
}

/// The view of an optional text.
pub open spec fn text_view(s: Option<&str>) -> Option<Seq<char>> {
    match s {
        Some(s) => Some(s@),
        None => None,
    }
}

/// The start of the name of every socket for the display that the
/// environment names: `wayland_display` and `display` are what it says of
/// the Wayland and of the X11 display.
pub fn socket_prefix(wayland_display: Option<&str>, display: Option<&str>) -> (prefix: String)
    ensures
        prefix@ == spec_socket_prefix(text_view(wayland_display), text_view(display)),
{
    let name: Vec<char> = match wayland_display {
        Some(name) => chars_of(name),
        None => match display {
            Some(name) => chars_of(name),
            None => Vec::new(),
        },
    };
    let mut out: Vec<char> = chars_of("Alacritty-");
    proof {
        reveal_strlit("Alacritty-");
        assert(out@ =~= prefix_name());
    }
    let mut i: usize = 0;
    while i < name.len()
        invariant
            i <= name@.len(),
            out@ == prefix_name() + dashed(name@).take(i as int),
        decreases name@.len() - i,
    {
        let c: char = name[i];
        out.push(if c == '/' {
            '-'
        } else {
            c
        });
        i += 1;
        assert(out@ =~= prefix_name() + dashed(name@).take(i as int));
    }
    assert(dashed(name@).take(name@.len() as int) =~= dashed(name@));
    string_of(&out)
}

/// Whether `b` starts at place `at` of `a`.
fn holds_at(a: &Vec<char>, at: usize, b: &Vec<char>) -> (r: bool)
    requires
        at + b@.len() <= a@.len(),
    ensures
        r == (a@.subrange(at as int, at + b@.len()) == b@),
{
    let n: usize = a.len();
    let mut i: usize = 0;
    while i < b.len()
        invariant
            i <= b@.len(),
            n == a@.len(),
            at + b@.len() <= n,
            forall|k: int| 0 <= k < i ==> a@[at + k] == b@[k],
        decreases b@.len() - i,
    {
        if a[at + i] != b[i] {
            assert(a@.subrange(at as int, at + b@.len())[i as int] != b@[i as int]);
            return false;
        }
        i += 1;
    }
    assert(a@.subrange(at as int, at + b@.len()) =~= b@);
    true
}

/// Whether a file of the name `name` is a socket of the display whose
/// sockets' names start with `prefix`.
pub fn is_socket_name(name: &str, prefix: &str) -> (r: bool)
    ensures
        r == spec_is_socket_name(name@, prefix@),
{
    let name: Vec<char> = chars_of(name);
    let prefix: Vec<char> = chars_of(prefix);
    let suffix: Vec<char> = chars_of(".sock");
    proof {
        reveal_strlit(".sock");
        assert(suffix@ =~= socket_suffix());
    }
    if prefix.len() > name.len() || suffix.len() > name.len() {
        return false;
    }
    holds_at(&name, 0, &prefix) && holds_at(&name, name.len() - suffix.len(), &suffix)
}

} // verus!
