//! Validation of the two pieces of text callers hand the core: display
//! names and room ids.

use vstd::prelude::*;

use crate::text::{alnum_char, push_char, white_char};
use crate::username::random_username;

verus! {

/// Characters a room id may carry: ASCII letters and digits.
pub open spec fn is_room_id_char(c: char) -> bool {
    (48 <= c as u32 && c as u32 <= 57) || (97 <= c as u32 && c as u32 <= 122) || (65 <= c as u32
        && c as u32 <= 90)
}

/// A validated room id: the ASCII letters and digits of the input, in
/// order, capped at ten characters.
pub open spec fn room_id_spec(s: Seq<char>) -> Seq<char> {
    let f = s.filter(|c: char| is_room_id_char(c));
    if f.len() <= 10 {
        f
    } else {
        f.take(10)
    }
}

/// Validates a requested room id by dropping every character that is not
/// an ASCII letter or digit and keeping at most the first ten that remain.
pub fn room_id(requested: &str) -> (r: String)
    ensures
        r@ == room_id_spec(requested@),
{
    let n = requested.unicode_len();
    let mut out = String::new();
    let mut kept: usize = 0;
    let mut i: usize = 0;
    proof {
        assert(requested@.take(0) =~= Seq::<char>::empty());
        reveal(Seq::filter);
    }
    while i < n
        invariant
            n == requested@.len(),
            i <= n,
            kept == requested@.take(i as int).filter(|c: char| is_room_id_char(c)).len(),
            out@ == room_id_spec(requested@.take(i as int)),
        decreases n - i,
    {
        let c = requested.get_char(i);
        proof {
            reveal(Seq::filter);
            assert(requested@.take(i + 1).drop_last() =~= requested@.take(i as int));
            assert(requested@.take(i + 1).last() == requested@[i as int]);
            broadcast use vstd::seq_lib::group_seq_properties;
        }
        let u = c as u32;
        if (48 <= u && u <= 57) || (97 <= u && u <= 122) || (65 <= u && u <= 90) {
            if kept < 10 {
                push_char(&mut out, c);
            }
            kept = kept + 1;
            proof {
                reveal(Seq::filter);
                let pref = requested@.take(i as int).filter(|c: char| is_room_id_char(c));
                assert(requested@.take(i + 1).filter(|c: char| is_room_id_char(c)) =~= pref.push(
                    c,
                ));
                if pref.len() >= 10 {
                    assert(pref.push(c).take(10) =~= pref.take(10));
                }
            }
        } else {
            proof {
                reveal(Seq::filter);
                assert(requested@.take(i + 1).filter(|c: char| is_room_id_char(c))
                    =~= requested@.take(i as int).filter(|c: char| is_room_id_char(c)));
            }
        }
        i = i + 1;
    }
    proof {
        assert(requested@.take(n as int) =~= requested@);
    }
    out
}

/// One step of display-name normalization: an alphanumeric character is
/// kept (preceded by a single space when a gap was pending), whitespace
/// only marks a gap, and everything else is dropped without marking one.
pub open spec fn norm_step(o: Seq<char>, pending: bool, c: char) -> (Seq<char>, bool) {
    if alnum_char(c) {
        if pending && o.len() > 0 {
            (o.push(' ').push(c), false)
        } else {
            (o.push(c), false)
        }
    } else if white_char(c) {
        (o, true)
    } else {
        (o, pending)
    }
}

/// Normalization state after reading a whole prefix.
pub open spec fn norm_state(s: Seq<char>) -> (Seq<char>, bool)
    decreases s.len(),
{
    if s.len() == 0 {
        (Seq::empty(), false)
    } else {
        let prev = norm_state(s.drop_last());
        norm_step(prev.0, prev.1, s.last())
    }
}

/// The normalized display name: alphanumeric and whitespace characters are
/// kept, every other character is dropped, and the remaining words are
/// joined by single spaces with no leading or trailing space.
pub open spec fn normalized_name(s: Seq<char>) -> Seq<char> {
    norm_state(s).0
}

/// Validates a display name: the name is normalized, and a name with
/// nothing left after normalization is replaced by a freshly generated
/// random one.
pub fn username(requested: &String) -> (r: String)
    ensures
        normalized_name(requested@).len() > 0 ==> r@ == normalized_name(requested@),
        normalized_name(requested@).len() == 0 ==> (exists|g: Seq<char>|
            r@ == #[trigger] crate::username::capitalized(g)),
{
    let s = requested.as_str();
    let n = s.unicode_len();
    let mut out = String::new();
    let mut pending: bool = false;
    let mut i: usize = 0;
    proof {
        assert(s@.take(0) =~= Seq::<char>::empty());
    }
    while i < n
        invariant
            n == s@.len(),
            i <= n,
            out@ == norm_state(s@.take(i as int)).0,
            pending == norm_state(s@.take(i as int)).1,
        decreases n - i,
    {
        let c = s.get_char(i);
        proof {
            assert(s@.take(i + 1).drop_last() =~= s@.take(i as int));
            assert(s@.take(i + 1).last() == s@[i as int]);
        }
        if c.is_alphanumeric() {
            if pending && !out.as_str().is_empty() {
                push_char(&mut out, ' ');
            }
            push_char(&mut out, c);
            pending = false;
        } else if c.is_whitespace() {
            pending = true;
        }
        i = i + 1;
    }
    proof {
        assert(s@.take(n as int) =~= s@);
    }
    if out.as_str().is_empty() {
        random_username()
    } else {
        out
    }
}

} // verus!
