//! Random display names for participants who join without one.

use vstd::prelude::*;

use crate::text::push_char;

verus! {

/// Relies on names::Generator: draws a random "adjective-noun" name from
/// its built-in word lists; the result depends on a thread-local random
/// number generator, so nothing can be promised about its text.
#[verifier::external_body]
fn generate_name() -> (r: String) {
    names::Generator::default().next().unwrap_or_default()
}

/// ASCII uppercasing of one character; everything else is unchanged.
pub open spec fn ascii_upper(c: char) -> char {
    if 97 <= c as u32 && c as u32 <= 122 {
        (((c as u32) - 32) as u8) as char
    } else {
        c
    }
}

/// One step of word capitalization: a dash ends the word and shows up as a
/// single separating space, and the first character after it (or of the
/// whole text) is uppercased when it is an ASCII lowercase letter.
pub open spec fn cap_step(o: Seq<char>, start: bool, c: char) -> (Seq<char>, bool) {
    if c == '-' {
        (if o.len() > 0 {
            o.push(' ')
        } else {
            o
        }, true)
    } else if start {
        (o.push(ascii_upper(c)), false)
    } else {
        (o.push(c), false)
    }
}

/// Capitalization state after reading a whole prefix.
pub open spec fn cap_state(s: Seq<char>) -> (Seq<char>, bool)
    decreases s.len(),
{
    if s.len() == 0 {
        (Seq::empty(), true)
    } else {
        let prev = cap_state(s.drop_last());
        cap_step(prev.0, prev.1, s.last())
    }
}

/// The generated "adjective-noun" text turned into a display name.
pub open spec fn capitalized(s: Seq<char>) -> Seq<char> {
    cap_state(s).0
}

/// Uppercases one character when it is an ASCII lowercase letter.
fn upper_char(c: char) -> (r: char)
    ensures
        r == ascii_upper(c),
{
    let u = c as u32;
    if 97 <= u && u <= 122 {
        ((u - 32) as u8) as char
    } else {
        c
    }
}

/// Turns a dash-separated word list into a display name: dashes become
/// single spaces and each word's first ASCII letter is uppercased.
pub fn capitalize_words(input: &str) -> (r: String)
    ensures
        r@ == capitalized(input@),
{
    let n = input.unicode_len();
    let mut out = String::new();
    let mut start: bool = true;
    let mut i: usize = 0;
    proof {
        assert(input@.take(0) =~= Seq::<char>::empty());
    }
    while i < n
        invariant
            n == input@.len(),
            i <= n,
            out@ == cap_state(input@.take(i as int)).0,
            start == cap_state(input@.take(i as int)).1,
        decreases n - i,
    {
        let c = input.get_char(i);
        proof {
            assert(input@.take(i + 1).drop_last() =~= input@.take(i as int));
            assert(input@.take(i + 1).last() == input@[i as int]);
        }
        if c == '-' {
            if !out.as_str().is_empty() {
                push_char(&mut out, ' ');
            }
            start = true;
        } else if start {
            push_char(&mut out, upper_char(c));
            start = false;
        } else {
            push_char(&mut out, c);
        }
        i = i + 1;
    }
    proof {
        assert(input@.take(n as int) =~= input@);
    }
    out
}

/// A freshly generated random display name: the capitalization of some
/// generated dash-separated word list.
pub fn random_username() -> (r: String)
    ensures
        exists|g: Seq<char>| r@ == #[trigger] capitalized(g),
{
    let name = generate_name();
    let r = capitalize_words(name.as_str());
    proof {
        assert(r@ == capitalized(name@));
    }
    r
}

} // verus!
