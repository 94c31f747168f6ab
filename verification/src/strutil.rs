use vstd::prelude::*;
use vstd::std_specs::iter::IteratorSpec;

verus! {

/// Relies on alloc's `String::push`: appends one character to the string.
#[verifier::external_body]
pub fn push_char(s: &mut String, c: char)
    ensures
        final(s)@ == old(s)@.push(c),
{
    s.push(c);
}

/// Compares two byte slices element by element.
pub fn bytes_eq(a: &[u8], b: &[u8]) -> (r: bool)
    ensures
        r == (a@ == b@),
{
    if a.len() != b.len() {
        return false;
    }
    let mut i: usize = 0;
    while i < a.len()
        invariant
            0 <= i <= a@.len(),
            a@.len() == b@.len(),
            forall|j: int| 0 <= j < i ==> a@[j] == b@[j],
        decreases a@.len() - i,
    {
        if *vstd::slice::slice_index_get(a, i) != *vstd::slice::slice_index_get(b, i) {
            assert(a@[i as int] != b@[i as int]);
            assert(a@ != b@);
            return false;
        }
        i = i + 1;
    }
    assert(a@ =~= b@);
    true
}

/// String equality, meaning equality of the character sequences.
pub fn str_eq(a: &str, b: &str) -> (r: bool)
    ensures
        r == (a@ == b@),
{
    let r = bytes_eq(a.as_bytes(), b.as_bytes());
    proof {
        vstd::utf8::encode_utf8_valid_utf8(a@);
        vstd::utf8::encode_utf8_decode_utf8(a@);
        vstd::utf8::encode_utf8_decode_utf8(b@);
    }
    r
}

/// Turns a vector of characters into the string holding exactly them.
pub fn chars_to_string(v: &Vec<char>) -> (r: String)
    ensures
        r@ == v@,
{
    let mut s = String::new();
    let mut i: usize = 0;
    while i < v.len()
        invariant
            0 <= i <= v@.len(),
            s@ == v@.subrange(0, i as int),
        decreases v@.len() - i,
    {
        push_char(&mut s, v[i]);
        assert(s@ =~= v@.subrange(0, i + 1 as int));
        i = i + 1;
    }
    assert(v@.subrange(0, v@.len() as int) =~= v@);
    s
}

/// The decimal spelling of a natural number.
pub open spec fn dec_spec(n: nat) -> Seq<char>
    decreases n,
{
    if n < 10 {
        seq![digit_char(n)]
    } else {
        dec_spec(n / 10).push(digit_char(n % 10))
    }
}

pub open spec fn digit_char(d: nat) -> char {
    if d == 0 {
        '0'
    } else if d == 1 {
        '1'
    } else if d == 2 {
        '2'
    } else if d == 3 {
        '3'
    } else if d == 4 {
        '4'
    } else if d == 5 {
        '5'
    } else if d == 6 {
        '6'
    } else if d == 7 {
        '7'
    } else if d == 8 {
        '8'
    } else {
        '9'
    }
}

fn digit_to_char(d: u64) -> (r: char)
    requires
        d < 10,
    ensures
        r == digit_char(d as nat),
{
    match d {
        0 => '0',
        1 => '1',
        2 => '2',
        3 => '3',
        4 => '4',
        5 => '5',
        6 => '6',
        7 => '7',
        8 => '8',
        _ => '9',
    }
}

/// The decimal spelling of an unsigned number, as a string.
pub fn u64_to_string(n: u64) -> (r: String)
    ensures
        r@ == dec_spec(n as nat),
    decreases n,
{
    if n < 10 {
        let mut s = String::new();
        push_char(&mut s, digit_to_char(n));
        assert(s@ =~= dec_spec(n as nat));
        s
    } else {
        let mut s = u64_to_string(n / 10);
        push_char(&mut s, digit_to_char(n % 10));
        s
    }
}


/// The characters of a string, as a vector.
pub fn str_to_chars(s: &str) -> (r: Vec<char>)
    ensures
        r@ == s@,
{
    broadcast use vstd::string::axiom_spec_iter, vstd::string::next_postcondition;

    let mut it = s.chars();
    let mut v: Vec<char> = Vec::new();
    let mut done = false;
    proof {
        assert(v@ + it.remaining() =~= s@);
    }
    while !done
        invariant
            it.obeys_prophetic_iter_laws(),
            !done ==> v@ + it.remaining() =~= s@,
            done ==> v@ =~= s@,
            v@.len() <= s@.len(),
        decreases s@.len() - v@.len() + (if done {
                0int
            } else {
                1int
            }),
    {
        match it.next() {
            Some(c) => {
                v.push(c);
            },
            None => {
                done = true;
            },
        }
    }
    v
}

/// A path with its trailing separators taken off, so that a directory
/// path written with a final separator still names its last component.
pub open spec fn strip_trailing(s: Seq<char>) -> Seq<char>
    decreases s.len(),
{
    if s.len() > 0 && s.last() == '/' {
        strip_trailing(s.drop_last())
    } else {
        s
    }
}

/// The name part of a path: what follows the last separator.
pub open spec fn basename(s: Seq<char>) -> Seq<char>
    decreases s.len(),
{
    if s.len() == 0 {
        s
    } else if s.last() == '/' {
        Seq::empty()
    } else {
        basename(s.drop_last()).push(s.last())
    }
}

pub open spec fn has_dot(s: Seq<char>) -> bool
    decreases s.len(),
{
    s.len() > 0 && (s.last() == '.' || has_dot(s.drop_last()))
}

pub open spec fn cut_last_dot(s: Seq<char>) -> Seq<char>
    decreases s.len(),
{
    if s.len() == 0 {
        s
    } else if s.last() == '.' {
        s.drop_last()
    } else {
        cut_last_dot(s.drop_last())
    }
}

/// The module name a source path gives: its file name with the extension
/// taken off. Trailing separators are ignored, so a directory path still
/// names its last component. A name that is nothing but an extension
/// keeps itself, and a path of separators alone, or an empty one, gives
/// the empty name.
pub open spec fn module_name_spec(s: Seq<char>) -> Seq<char> {
    let b = basename(strip_trailing(s));
    if has_dot(b) && cut_last_dot(b).len() > 0 {
        cut_last_dot(b)
    } else {
        b
    }
}

fn basename_exec(s: &Vec<char>, n: usize) -> (r: Vec<char>)
    requires
        n <= s@.len(),
    ensures
        r@ == basename(s@.subrange(0, n as int)),
    decreases n,
{
    proof {
        assert(s@.subrange(0, n as int).len() == n);
    }
    if n == 0 {
        let v: Vec<char> = Vec::new();
        proof {
            assert(v@ =~= basename(s@.subrange(0, 0)));
        }
        v
    } else if s[n - 1] == '/' {
        let v: Vec<char> = Vec::new();
        proof {
            assert(s@.subrange(0, n as int).last() == s@[n - 1]);
            assert(v@ =~= Seq::<char>::empty());
        }
        v
    } else {
        let mut v = basename_exec(s, n - 1);
        v.push(s[n - 1]);
        proof {
            assert(s@.subrange(0, n as int).drop_last() =~= s@.subrange(0, n - 1 as int));
            assert(s@.subrange(0, n as int).last() == s@[n - 1]);
        }
        v
    }
}

fn has_dot_exec(s: &Vec<char>, n: usize) -> (r: bool)
    requires
        n <= s@.len(),
    ensures
        r == has_dot(s@.subrange(0, n as int)),
    decreases n,
{
    proof {
        assert(s@.subrange(0, n as int).len() == n);
        if n > 0 {
            assert(s@.subrange(0, n as int).drop_last() =~= s@.subrange(0, n - 1 as int));
            assert(s@.subrange(0, n as int).last() == s@[n - 1]);
        }
    }
    if n == 0 {
        false
    } else if s[n - 1] == '.' {
        true
    } else {
        has_dot_exec(s, n - 1)
    }
}

fn cut_last_dot_exec(s: &Vec<char>, n: usize) -> (r: Vec<char>)
    requires
        n <= s@.len(),
    ensures
        r@ == cut_last_dot(s@.subrange(0, n as int)),
    decreases n,
{
    proof {
        assert(s@.subrange(0, n as int).len() == n);
        if n > 0 {
            assert(s@.subrange(0, n as int).drop_last() =~= s@.subrange(0, n - 1 as int));
            assert(s@.subrange(0, n as int).last() == s@[n - 1]);
        }
    }
    if n == 0 {
        let v: Vec<char> = Vec::new();
        proof {
            assert(v@ =~= cut_last_dot(s@.subrange(0, 0)));
        }
        v
    } else if s[n - 1] == '.' {
        let mut v: Vec<char> = Vec::new();
        let mut i: usize = 0;
        while i < n - 1
            invariant
                0 <= i <= n - 1,
                n <= s@.len(),
                v@ =~= s@.subrange(0, i as int),
            decreases n - 1 - i,
        {
            v.push(s[i]);
            assert(v@ =~= s@.subrange(0, i + 1 as int));
            i = i + 1;
        }
        proof {
            assert(v@ =~= s@.subrange(0, n - 1 as int));
        }
        v
    } else {
        cut_last_dot_exec(s, n - 1)
    }
}

/// The module name for a source file: its base name with the extension
/// taken off. A trailing separator is ignored; a path of separators
/// alone gives the empty name, and the caller decides what that means.
pub fn get_module_name(path: &str) -> (r: String)
    ensures
        r@ == module_name_spec(path@),
{
    let chars = str_to_chars(path);
    proof {
        assert(chars@.subrange(0, chars@.len() as int) =~= path@);
    }
    let mut n = chars.len();
    while n > 0 && chars[n - 1] == '/'
        invariant
            n <= chars@.len(),
            strip_trailing(path@) == strip_trailing(chars@.subrange(0, n as int)),
        decreases n,
    {
        proof {
            assert(chars@.subrange(0, n as int).last() == chars@[n - 1]);
            assert(chars@.subrange(0, n as int).drop_last() =~= chars@.subrange(0, n - 1 as int));
        }
        n = n - 1;
    }
    proof {
        assert(strip_trailing(chars@.subrange(0, n as int)) == chars@.subrange(0, n as int));
    }
    let base = basename_exec(&chars, n);
    let bn = base.len();
    proof {
        assert(base@.subrange(0, bn as int) =~= base@);
    }
    if has_dot_exec(&base, bn) {
        let cut = cut_last_dot_exec(&base, bn);
        if cut.len() > 0 {
            return chars_to_string(&cut);
        }
    }
    chars_to_string(&base)
}

} // verus!
